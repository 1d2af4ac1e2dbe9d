//! Operations that take several calls of the engine.

use vstd::prelude::*;

verus! {

/// Where such an operation stands.
#[derive(Debug)]
pub enum Step<C, R> {
    /// The engine is to be called; its answer goes to `resume`.
    Call(C),
    /// The operation is over.
    Done(R),
}

/// What is left of a buffer that is cut to `n` elements.
pub open spec fn cut<T>(buf: Seq<T>, n: int) -> Seq<T> {
    if 0 <= n < buf.len() {
        buf.take(n)
    } else {
        buf
    }
}

/// Cuts `buf` to the `n` elements that the engine filled in.
pub fn cut_to<T>(buf: Vec<T>, n: i32) -> (filled: Vec<T>)
    requires
        n >= 0,
    ensures
        filled@ == cut(buf@, n as int),
{
    let mut buf = buf;
    let len: usize = n as usize;
    buf.truncate(len);
    buf
}

/// Cutting keeps the first `n` elements as they are and nothing else, and keeps all of
/// a buffer that has no more.
pub proof fn lemma_cut_keeps_the_first<T>(buf: Vec<T>, n: i32, filled: Vec<T>)
    requires
        n >= 0,
        call_ensures(cut_to::<T>, (buf, n), filled),
    ensures
        filled@.len() == if n < buf@.len() {
            n as int
        } else {
            buf@.len() as int
        },
        forall|i: int| 0 <= i < filled@.len() ==> #[trigger] filled@[i] == buf@[i],
{
}

} // verus!
