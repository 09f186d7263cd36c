use vstd::prelude::*;

verus! {

/// Returned when a frame holds no sample to take the intensity from.
#[derive(Debug, Clone, Copy, PartialEq, Eq)]
pub struct EmptyFrame;

/// The sample that stands for a whole frame: its most recent one, the last.
/// An empty frame has none and is refused.
pub fn representative_sample<T: Copy>(frame: &[T]) -> (r: Result<T, EmptyFrame>)
    ensures
        frame@.len() == 0 <==> r is Err,
        frame@.len() > 0 ==> r == Ok::<T, EmptyFrame>(frame@.last()),
{
    if frame.len() == 0 {
        Err(EmptyFrame)
    } else {
        Ok(frame[frame.len() - 1])
    }
}

} // verus!
