//! What the server's response future and response body do with the future or
//! body of the method they stand for: they pass its progress on under the
//! same method, and an unknown path gets an empty, finished body.

use vstd::prelude::*;

verus! {

/// One value for each method of the service, or one for a request whose
/// path names no method.
pub enum Kind<A, B, C, D, E> {
    SayHello(A),
    CStreamSayHello(B),
    SStreamSayHello(C),
    BStreamSayHello(D),
    Unimplemented(E),
}

/// The progress of a future: done with a value, or not yet.
pub enum Poll<T> {
    Ready(T),
    NotReady,
}

/// A value under each method whose future is done, moved out of its `Ready`;
/// `NotReady` when the future of the method is not done.
pub open spec fn kind_ready<A, B, C, D, E>(
    k: Kind<Poll<A>, Poll<B>, Poll<C>, Poll<D>, Poll<E>>,
) -> Poll<Kind<A, B, C, D, E>> {
    match k {
        Kind::SayHello(Poll::Ready(a)) => Poll::Ready(Kind::SayHello(a)),
        Kind::CStreamSayHello(Poll::Ready(b)) => Poll::Ready(Kind::CStreamSayHello(b)),
        Kind::SStreamSayHello(Poll::Ready(c)) => Poll::Ready(Kind::SStreamSayHello(c)),
        Kind::BStreamSayHello(Poll::Ready(d)) => Poll::Ready(Kind::BStreamSayHello(d)),
        Kind::Unimplemented(Poll::Ready(e)) => Poll::Ready(Kind::Unimplemented(e)),
        _ => Poll::NotReady,
    }
}

impl<A, B, C, D, E> Kind<Poll<A>, Poll<B>, Poll<C>, Poll<D>, Poll<E>> {
    /// The progress of the response future: when the future of the method it
    /// stands for is done, the response is done under the same method.
    pub fn ready(self) -> (r: Poll<Kind<A, B, C, D, E>>)
        ensures
            r == kind_ready(self),
    {
        match self {
            Kind::SayHello(Poll::Ready(a)) => Poll::Ready(Kind::SayHello(a)),
            Kind::CStreamSayHello(Poll::Ready(b)) => Poll::Ready(Kind::CStreamSayHello(b)),
            Kind::SStreamSayHello(Poll::Ready(c)) => Poll::Ready(Kind::SStreamSayHello(c)),
            Kind::BStreamSayHello(Poll::Ready(d)) => Poll::Ready(Kind::BStreamSayHello(d)),
            Kind::Unimplemented(Poll::Ready(e)) => Poll::Ready(Kind::Unimplemented(e)),
            _ => Poll::NotReady,
        }
    }
}

/// The value under a method; `None` for an unknown path.
pub open spec fn kind_inner<T>(k: Kind<T, T, T, T, ()>) -> Option<T> {
    match k {
        Kind::SayHello(t) => Some(t),
        Kind::CStreamSayHello(t) => Some(t),
        Kind::SStreamSayHello(t) => Some(t),
        Kind::BStreamSayHello(t) => Some(t),
        Kind::Unimplemented(_) => None,
    }
}

impl<T> Kind<T, T, T, T, ()> {
    /// What the response body gives when asked for data or trailers: what
    /// the body of the method gives, or `None` (no more data, no trailers)
    /// for an unknown path.
    pub fn inner(self) -> (r: Option<T>)
        ensures
            r == kind_inner(self),
    {
        match self {
            Kind::SayHello(t) => Some(t),
            Kind::CStreamSayHello(t) => Some(t),
            Kind::SStreamSayHello(t) => Some(t),
            Kind::BStreamSayHello(t) => Some(t),
            Kind::Unimplemented(_) => None,
        }
    }
}

/// Whether a response body is at its end, given whether the body under each
/// method is: that flag under a method, and always for an unknown path.
pub open spec fn kind_at_end(k: Kind<bool, bool, bool, bool, ()>) -> bool {
    match kind_inner(k) {
        Some(end) => end,
        None => true,
    }
}

impl Kind<bool, bool, bool, bool, ()> {
    /// Whether the response body is at its end: whether the body of the
    /// method is, and always for an unknown path.
    pub fn is_end_stream(&self) -> (b: bool)
        ensures
            b == kind_at_end(*self),
    {
        match self {
            Kind::SayHello(end) => *end,
            Kind::CStreamSayHello(end) => *end,
            Kind::SStreamSayHello(end) => *end,
            Kind::BStreamSayHello(end) => *end,
            Kind::Unimplemented(_) => true,
        }
    }
}

/// The response future is done exactly when the future of its method is, and
/// then it holds that future's value under the same method: for each method,
/// and for an unknown path.
pub proof fn lemma_ready_keeps_method<A, B, C, D, E>(a: A, b: B, c: C, d: D, e: E)
    ensures
        kind_ready(Kind::<Poll<A>, Poll<B>, Poll<C>, Poll<D>, Poll<E>>::SayHello(Poll::Ready(a)))
            == Poll::Ready(Kind::<A, B, C, D, E>::SayHello(a)),
        kind_ready(Kind::<Poll<A>, Poll<B>, Poll<C>, Poll<D>, Poll<E>>::CStreamSayHello(Poll::Ready(b)))
            == Poll::Ready(Kind::<A, B, C, D, E>::CStreamSayHello(b)),
        kind_ready(Kind::<Poll<A>, Poll<B>, Poll<C>, Poll<D>, Poll<E>>::SStreamSayHello(Poll::Ready(c)))
            == Poll::Ready(Kind::<A, B, C, D, E>::SStreamSayHello(c)),
        kind_ready(Kind::<Poll<A>, Poll<B>, Poll<C>, Poll<D>, Poll<E>>::BStreamSayHello(Poll::Ready(d)))
            == Poll::Ready(Kind::<A, B, C, D, E>::BStreamSayHello(d)),
        kind_ready(Kind::<Poll<A>, Poll<B>, Poll<C>, Poll<D>, Poll<E>>::Unimplemented(Poll::Ready(e)))
            == Poll::Ready(Kind::<A, B, C, D, E>::Unimplemented(e)),
        kind_ready(Kind::<Poll<A>, Poll<B>, Poll<C>, Poll<D>, Poll<E>>::SayHello(Poll::NotReady))
            == Poll::<Kind<A, B, C, D, E>>::NotReady,
        kind_ready(Kind::<Poll<A>, Poll<B>, Poll<C>, Poll<D>, Poll<E>>::CStreamSayHello(Poll::NotReady))
            == Poll::<Kind<A, B, C, D, E>>::NotReady,
        kind_ready(Kind::<Poll<A>, Poll<B>, Poll<C>, Poll<D>, Poll<E>>::SStreamSayHello(Poll::NotReady))
            == Poll::<Kind<A, B, C, D, E>>::NotReady,
        kind_ready(Kind::<Poll<A>, Poll<B>, Poll<C>, Poll<D>, Poll<E>>::BStreamSayHello(Poll::NotReady))
            == Poll::<Kind<A, B, C, D, E>>::NotReady,
        kind_ready(Kind::<Poll<A>, Poll<B>, Poll<C>, Poll<D>, Poll<E>>::Unimplemented(Poll::NotReady))
            == Poll::<Kind<A, B, C, D, E>>::NotReady,
{
}

/// The response body of a method passes on that method's body, and that of
/// an unknown path holds nothing.
pub proof fn lemma_inner_is_method_body<T>(t: T)
    ensures
        kind_inner(Kind::<T, T, T, T, ()>::SayHello(t)) == Some(t),
        kind_inner(Kind::<T, T, T, T, ()>::CStreamSayHello(t)) == Some(t),
        kind_inner(Kind::<T, T, T, T, ()>::SStreamSayHello(t)) == Some(t),
        kind_inner(Kind::<T, T, T, T, ()>::BStreamSayHello(t)) == Some(t),
        kind_inner(Kind::<T, T, T, T, ()>::Unimplemented(())) == None::<T>,
{
}

/// The response body of a method is at its end exactly when the method's own
/// body is; that of an unknown path is always at its end.
pub proof fn lemma_end_of_stream_is_method_end(end: bool)
    ensures
        kind_at_end(Kind::SayHello(end)) == end,
        kind_at_end(Kind::CStreamSayHello(end)) == end,
        kind_at_end(Kind::SStreamSayHello(end)) == end,
        kind_at_end(Kind::BStreamSayHello(end)) == end,
        kind_at_end(Kind::Unimplemented(())),
{
}

} // verus!
