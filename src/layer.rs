use vstd::prelude::*;
use crate::header_map::{copy_map, header_entries, name_count, names_of, HeaderEntry, INSERT_LIMIT};
use crate::merge::{merge_defaults, merged};

verus! {

#[verifier::external_type_specification]
#[verifier::external_body]
#[verifier::reject_recursive_types(T)]
pub struct ExResponse<T>(http::Response<T>);

pub assume_specification<T>[ http::Response::<T>::headers_mut ](r: &mut http::Response<T>) -> &mut http::HeaderMap;

/// Merges `defaults` into `headers` where the two hold at most `INSERT_LIMIT` distinct names
/// together, a bound under which no insertion can panic; otherwise leaves `headers` as they
/// are. Returns whether it merged.
pub fn apply_defaults(headers: &mut http::HeaderMap, defaults: &http::HeaderMap) -> (applied: bool)
    ensures
        applied == (names_of(header_entries(*old(headers))).len() + names_of(
            header_entries(*defaults),
        ).len() <= INSERT_LIMIT),
        applied ==> header_entries(*final(headers)) == merged(
            header_entries(*old(headers)),
            header_entries(*defaults),
        ),
        !applied ==> header_entries(*final(headers)) == header_entries(*old(headers)),
{
    let n = name_count(headers);
    let d = name_count(defaults);
    if n <= INSERT_LIMIT && d <= INSERT_LIMIT - n {
        merge_defaults(headers, defaults);
        true
    } else {
        false
    }
}

/// Finishes one request: a failure of the inner stage comes back exactly as it was; a
/// response gets the defaults merged into its headers (see `apply_defaults`).
pub fn complete<B, E>(defaults: &http::HeaderMap, outcome: Result<http::Response<B>, E>) -> (r: Result<
    http::Response<B>,
    E,
>)
    ensures
        outcome is Err ==> r == outcome,
        r is Ok <==> outcome is Ok,
{
    match outcome {
        Err(e) => Err(e),
        Ok(mut response) => {
            apply_defaults(response.headers_mut(), defaults);
            Ok(response)
        },
    }
}

/// Holds the default headers, and wraps stages so that their responses get them.
pub struct DefaultHeadersLayer {
    default_headers: http::HeaderMap,
}

impl Clone for DefaultHeadersLayer {
    fn clone(&self) -> (r: Self)
        ensures
            r.defaults() == self.defaults(),
    {
        DefaultHeadersLayer { default_headers: copy_map(&self.default_headers) }
    }
}

impl DefaultHeadersLayer {
    /// The default headers, in their stored order.
    pub closed spec fn defaults(&self) -> Seq<HeaderEntry> {
        header_entries(self.default_headers)
    }

    /// Keeps the given headers as they are, duplicates and order included.
    pub fn new(default_headers: http::HeaderMap) -> (r: Self)
        ensures
            r.defaults() == header_entries(default_headers),
    {
        DefaultHeadersLayer { default_headers }
    }

    /// The default headers.
    pub fn default_headers(&self) -> (r: &http::HeaderMap)
        ensures
            header_entries(*r) == self.defaults(),
    {
        &self.default_headers
    }

    /// Wraps `inner` in a stage that carries a copy of the default headers.
    pub fn layer<S>(&self, inner: S) -> (r: DefaultHeaders<S>)
        ensures
            r.defaults() == self.defaults(),
            r.inner_stage() == inner,
    {
        DefaultHeaders { default_headers: copy_map(&self.default_headers), inner }
    }
}

/// A stage that forwards each request to its inner stage and merges the default headers
/// into the response.
pub struct DefaultHeaders<S> {
    default_headers: http::HeaderMap,
    inner: S,
}

impl<S: Clone> Clone for DefaultHeaders<S> {
    fn clone(&self) -> (r: Self)
        ensures
            r.defaults() == self.defaults(),
    {
        DefaultHeaders { default_headers: copy_map(&self.default_headers), inner: self.inner.clone() }
    }
}

impl<S> DefaultHeaders<S> {
    /// The default headers, in their stored order.
    pub closed spec fn defaults(&self) -> Seq<HeaderEntry> {
        header_entries(self.default_headers)
    }

    /// The wrapped stage.
    pub closed spec fn inner_stage(&self) -> S {
        self.inner
    }

    /// The wrapped stage.
    pub fn get_ref(&self) -> (r: &S)
        ensures
            *r == self.inner_stage(),
    {
        &self.inner
    }

    /// The wrapped stage, to be driven; the defaults stay as they are.
    pub fn get_mut(&mut self) -> (r: &mut S)
        ensures
            *r == old(self).inner_stage(),
            final(self).inner_stage() == *final(r),
            final(self).defaults() == old(self).defaults(),
    {
        &mut self.inner
    }

    /// The default headers.
    pub fn default_headers(&self) -> (r: &http::HeaderMap)
        ensures
            header_entries(*r) == self.defaults(),
    {
        &self.default_headers
    }

    /// Starts the post-processing of one request: pairs the inner stage's pending
    /// response with a copy of the default headers.
    pub fn respond<F>(&self, future: F) -> (r: ResponseFuture<F>)
        ensures
            r.defaults() == self.defaults(),
            r.pending() == future,
    {
        ResponseFuture { default_headers: copy_map(&self.default_headers), future }
    }
}

/// The inner stage's pending response, with the default headers to merge into it.
pub struct ResponseFuture<F> {
    default_headers: http::HeaderMap,
    future: F,
}

impl<F> ResponseFuture<F> {
    /// The default headers that this request carries.
    pub closed spec fn defaults(&self) -> Seq<HeaderEntry> {
        header_entries(self.default_headers)
    }

    /// The inner stage's pending response.
    pub closed spec fn pending(&self) -> F {
        self.future
    }

    /// Splits into the default headers and the pending response.
    pub fn into_parts(self) -> (r: (http::HeaderMap, F))
        ensures
            header_entries(r.0) == self.defaults(),
            r.1 == self.pending(),
    {
        (self.default_headers, self.future)
    }
}

} // verus!
