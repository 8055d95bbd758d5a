//! HTTP requests for scripts.
use vstd::prelude::*;

verus! {

/// The result of an HTTP request.
#[derive(Clone, Debug)]
pub struct HttpResponse {
    pub status: u16,
    pub body: String,
    pub ok: bool,
}

/// A way to make HTTP requests.
pub trait HttpBridge {
    fn get(&self, url: &str) -> Result<HttpResponse, String>;

    fn post(&self, url: &str, body: &str, content_type: &str) -> Result<HttpResponse, String>;

    fn put(&self, url: &str, body: &str, content_type: &str) -> Result<HttpResponse, String>;

    fn delete(&self, url: &str) -> Result<HttpResponse, String>;
}

} // verus!
