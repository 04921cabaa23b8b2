use vstd::prelude::*;

verus! {

/// Whether a value is available now, or the caller must wait to be woken.
pub enum Async<T> {
    /// The value is here.
    Ready(T),
    /// No value yet; the current task will be notified when progress is possible.
    NotReady,
}

/// The outcome of one advance attempt: a pending or ready value, or an error.
pub type Poll<T, E> = Result<Async<T>, E>;

/// A ready stream step that carries an item.
pub open spec fn is_item<T, E>(r: Poll<Option<T>, E>) -> bool {
    r matches Ok(Async::Ready(Some(_)))
}

/// The item carried by a ready stream step.
pub open spec fn item_of<T, E>(r: Poll<Option<T>, E>) -> T
    recommends is_item(r),
{
    r->Ok_0->Ready_0->Some_0
}

/// A stream step that ends the stream: exhaustion or an error.
pub open spec fn is_terminal<T, E>(r: Poll<Option<T>, E>) -> bool {
    r matches Ok(Async::Ready(None)) || r is Err
}

/// A step that makes the caller wait.
pub open spec fn is_pending<T, E>(r: Poll<Option<T>, E>) -> bool {
    r matches Ok(Async::NotReady)
}

impl<T> Async<T> {
    /// Whether the value is here.
    pub fn is_ready(&self) -> (r: bool)
        ensures
            r == (self is Ready),
    {
        match self {
            Async::Ready(_) => true,
            Async::NotReady => false,
        }
    }

    /// Whether the value is still awaited.
    pub fn is_not_ready(&self) -> (r: bool)
        ensures
            r == (self is NotReady),
    {
        !self.is_ready()
    }
}

} // verus!
