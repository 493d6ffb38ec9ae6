//! The plain request and query shapes of the service around the engine,
//! and the paging decisions their handlers make. The handlers themselves
//! do storage and transport work and live outside this crate; what they
//! decide from these values is stated and checked here.

use vstd::prelude::*;

verus! {

/// A boolean wrapped the way internal nodes exchange it with scripts.
pub struct LNBoolean {
    pub value: bool,
}

/// Severity of an operational log entry.
pub enum LogLevel {
    Info,
    Warn,
    Error,
}

impl LogLevel {
    /// The level's wire name, as stored and parsed by the service.
    pub fn as_str(&self) -> (r: &'static str)
        ensures
            r@ == self.spec_str(),
            r@.len() > 0,
    {
        proof {
            reveal_strlit("info");
            reveal_strlit("warn");
            reveal_strlit("error");
        }
        match self {
            LogLevel::Info => "info",
            LogLevel::Warn => "warn",
            LogLevel::Error => "error",
        }
    }

    /// The wire name of each level.
    pub open spec fn spec_str(&self) -> Seq<char> {
        match self {
            LogLevel::Info => "info"@,
            LogLevel::Warn => "warn"@,
            LogLevel::Error => "error"@,
        }
    }
}

/// Parse a log level from its wire name; anything else is rejected.
pub fn parse_log_level(s: &str) -> (r: Option<LogLevel>)
    ensures
        match r {
            Some(l) => l.spec_str() == s@,
            None => s@ != "info"@ && s@ != "warn"@ && s@ != "error"@,
        },
{
    if crate::text::str_eq(s, "info") {
        Some(LogLevel::Info)
    } else if crate::text::str_eq(s, "warn") {
        Some(LogLevel::Warn)
    } else if crate::text::str_eq(s, "error") {
        Some(LogLevel::Error)
    } else {
        None
    }
}

/// An HTTP method a route can be registered under.
pub enum HttpMethod {
    GET,
    POST,
    PUT,
    DELETE,
    PATCH,
}

impl HttpMethod {
    /// The method's wire name.
    pub fn as_str(&self) -> (r: &'static str)
        ensures
            r@ == self.spec_str(),
            r@.len() > 0,
    {
        proof {
            reveal_strlit("GET");
            reveal_strlit("POST");
            reveal_strlit("PUT");
            reveal_strlit("DELETE");
            reveal_strlit("PATCH");
        }
        match self {
            HttpMethod::GET => "GET",
            HttpMethod::POST => "POST",
            HttpMethod::PUT => "PUT",
            HttpMethod::DELETE => "DELETE",
            HttpMethod::PATCH => "PATCH",
        }
    }

    /// The wire name of each method.
    pub open spec fn spec_str(&self) -> Seq<char> {
        match self {
            HttpMethod::GET => "GET"@,
            HttpMethod::POST => "POST"@,
            HttpMethod::PUT => "PUT"@,
            HttpMethod::DELETE => "DELETE"@,
            HttpMethod::PATCH => "PATCH"@,
        }
    }
}

/// Parse an HTTP method from its wire name; anything else is rejected.
pub fn parse_http_method(s: &str) -> (r: Option<HttpMethod>)
    ensures
        match r {
            Some(m) => m.spec_str() == s@,
            None => s@ != "GET"@ && s@ != "POST"@ && s@ != "PUT"@ && s@ != "DELETE"@ && s@
                != "PATCH"@,
        },
{
    if crate::text::str_eq(s, "GET") {
        Some(HttpMethod::GET)
    } else if crate::text::str_eq(s, "POST") {
        Some(HttpMethod::POST)
    } else if crate::text::str_eq(s, "PUT") {
        Some(HttpMethod::PUT)
    } else if crate::text::str_eq(s, "DELETE") {
        Some(HttpMethod::DELETE)
    } else if crate::text::str_eq(s, "PATCH") {
        Some(HttpMethod::PATCH)
    } else {
        None
    }
}

/// Body of a request that moves a run's history entry to a new status.
pub struct UpdateHistoryStatusRequest {
    pub status: String,
}

/// Paging for listing run histories.
pub struct ListHistoriesQuery {
    pub limit: Option<i64>,
    pub offset: Option<i64>,
}

impl ListHistoriesQuery {
    /// The page size the listing uses: the given limit, or 10.
    pub fn effective_limit(&self) -> (r: i64)
        ensures
            r == if self.limit is Some {
                self.limit.unwrap()
            } else {
                10
            },
    {
        match self.limit {
            Some(l) => l,
            None => 10,
        }
    }

    /// The offset the listing uses: the given offset, or 0.
    pub fn effective_offset(&self) -> (r: i64)
        ensures
            r == if self.offset is Some {
                self.offset.unwrap()
            } else {
                0
            },
    {
        match self.offset {
            Some(o) => o,
            None => 0,
        }
    }
}

/// Paging for listing operational logs.
pub struct ListLogsQuery {
    pub limit: Option<i64>,
    pub offset: Option<i64>,
}

impl ListLogsQuery {
    /// The page size the listing uses: the given limit, or 30.
    pub fn effective_limit(&self) -> (r: i64)
        ensures
            r == if self.limit is Some {
                self.limit.unwrap()
            } else {
                30
            },
    {
        match self.limit {
            Some(l) => l,
            None => 30,
        }
    }

    /// The offset the listing uses: the given offset, or 0.
    pub fn effective_offset(&self) -> (r: i64)
        ensures
            r == if self.offset is Some {
                self.offset.unwrap()
            } else {
                0
            },
    {
        match self.offset {
            Some(o) => o,
            None => 0,
        }
    }
}

/// Paging for listing node definitions.
pub struct ListNodesQuery {
    pub limit: Option<i64>,
    pub offset: Option<i64>,
}

impl ListNodesQuery {
    /// The page size the listing uses: the given limit, or 10.
    pub fn effective_limit(&self) -> (r: i64)
        ensures
            r == if self.limit is Some {
                self.limit.unwrap()
            } else {
                10
            },
    {
        match self.limit {
            Some(l) => l,
            None => 10,
        }
    }

    /// The offset the listing uses: the given offset, or 0.
    pub fn effective_offset(&self) -> (r: i64)
        ensures
            r == if self.offset is Some {
                self.offset.unwrap()
            } else {
                0
            },
    {
        match self.offset {
            Some(o) => o,
            None => 0,
        }
    }
}

/// Paging for listing pipelines.
pub struct ListPipelinesQuery {
    pub limit: Option<i64>,
    pub offset: Option<i64>,
}

impl ListPipelinesQuery {
    /// The page size the listing uses: the given limit, or 10.
    pub fn effective_limit(&self) -> (r: i64)
        ensures
            r == if self.limit is Some {
                self.limit.unwrap()
            } else {
                10
            },
    {
        match self.limit {
            Some(l) => l,
            None => 10,
        }
    }

    /// The offset the listing uses: the given offset, or 0.
    pub fn effective_offset(&self) -> (r: i64)
        ensures
            r == if self.offset is Some {
                self.offset.unwrap()
            } else {
                0
            },
    {
        match self.offset {
            Some(o) => o,
            None => 0,
        }
    }
}

/// Body of a request that re-points an existing route.
pub struct RouteUpdateRequest {
    pub path: String,
    pub method: String,
}

/// Paging for listing routes.
pub struct PaginationQuery {
    pub limit: Option<i64>,
    pub offset: Option<i64>,
}

impl PaginationQuery {
    /// The page size the listing uses: the given limit, or 20.
    pub fn effective_limit(&self) -> (r: i64)
        ensures
            r == if self.limit is Some {
                self.limit.unwrap()
            } else {
                20
            },
    {
        match self.limit {
            Some(l) => l,
            None => 20,
        }
    }

    /// The offset the listing uses: the given offset, or 0.
    pub fn effective_offset(&self) -> (r: i64)
        ensures
            r == if self.offset is Some {
                self.offset.unwrap()
            } else {
                0
            },
    {
        match self.offset {
            Some(o) => o,
            None => 0,
        }
    }
}

} // verus!
