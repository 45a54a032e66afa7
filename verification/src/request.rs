use vstd::prelude::*;
use vstd::string::StringSliceAdditionalSpecFns;

verus! {

/// What the server does with a request, decided by the request line alone.
#[derive(Clone, Copy, Debug, PartialEq, Eq, Structural)]
pub enum Route {
    /// `GET /`: the front page.
    Home,
    /// `GET /sleep`: the front page, after a pause.
    Sleep,
    /// Anything else: the error page.
    NotFound,
}

/// The route of a request: it goes by what the request begins with.
pub open spec fn route_of(request: Seq<u8>) -> Route {
    if "GET / HTTP/1.1\r\n".spec_bytes().is_prefix_of(request) {
        Route::Home
    } else if "GET /sleep HTTP/1.1\r\n".spec_bytes().is_prefix_of(request) {
        Route::Sleep
    } else {
        Route::NotFound
    }
}

/// Whether `bytes` begins with `prefix`.
pub fn starts_with(bytes: &[u8], prefix: &[u8]) -> (b: bool)
    ensures
        b == prefix@.is_prefix_of(bytes@),
{
    if prefix.len() > bytes.len() {
        return false;
    }
    let mut i: usize = 0;
    while i < prefix.len()
        invariant
            i <= prefix@.len() <= bytes@.len(),
            forall|k: int| 0 <= k < i ==> prefix@[k] == bytes@[k],
        decreases prefix@.len() - i,
    {
        if prefix[i] != bytes[i] {
            assert(bytes@.subrange(0, prefix@.len() as int)[i as int] != prefix@[i as int]);
            return false;
        }
        i += 1;
    }
    assert(bytes@.subrange(0, prefix@.len() as int) =~= prefix@);
    true
}

/// Decide what to do with `request`, the bytes read from a connection.
pub fn route(request: &[u8]) -> (r: Route)
    ensures
        r == route_of(request@),
{
    if starts_with(request, "GET / HTTP/1.1\r\n".as_bytes()) {
        Route::Home
    } else if starts_with(request, "GET /sleep HTTP/1.1\r\n".as_bytes()) {
        Route::Sleep
    } else {
        Route::NotFound
    }
}

impl Route {
    /// The status line of the response, with the blank line that ends the
    /// headers.
    pub fn status_line(self) -> (line: &'static str)
        ensures
            line@ == match self {
                Route::NotFound => "HTTP/1.1 404 NOT FOUND\r\n\r\n"@,
                _ => "HTTP/1.1 200 OK\r\n\r\n"@,
            },
    {
        match self {
            Route::NotFound => "HTTP/1.1 404 NOT FOUND\r\n\r\n",
            _ => "HTTP/1.1 200 OK\r\n\r\n",
        }
    }

    /// The file whose contents make up the body of the response.
    pub fn page(self) -> (name: &'static str)
        ensures
            name@ == match self {
                Route::NotFound => "notfound.html"@,
                _ => "test.html"@,
            },
    {
        match self {
            Route::NotFound => "notfound.html",
            _ => "test.html",
        }
    }

    /// How many seconds to wait before answering.
    pub fn delay_secs(self) -> (secs: u64)
        ensures
            secs == match self {
                Route::Sleep => 5u64,
                _ => 0u64,
            },
    {
        match self {
            Route::Sleep => 5,
            _ => 0,
        }
    }
}

} // verus!
