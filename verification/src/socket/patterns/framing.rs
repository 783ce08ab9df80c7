use vstd::prelude::*;

verus! {

/// Whether a socket puts empty delimiters in and takes them out by itself. Once switched
/// off that stays off.
#[derive(Debug)]
pub struct FramingLatch {
    manual: bool,
}

impl FramingLatch {
    pub closed spec fn spec_manual(self) -> bool {
        self.manual
    }

    /// A latch that leaves the framing to the socket.
    pub fn new() -> (l: FramingLatch)
        ensures
            !l.spec_manual(),
    {
        FramingLatch { manual: false }
    }

    /// Whether the application does the framing.
    pub fn is_manual(&self) -> (b: bool)
        ensures
            b == self.spec_manual(),
    {
        self.manual
    }

    /// Leaves the framing to the application, for good.
    pub fn set_manual(&mut self)
        ensures
            final(self).spec_manual(),
    {
        self.manual = true;
    }
}

/// A new latch leaves the framing to the socket; once switched off it stays so.
pub proof fn framing_stays_manual(l: FramingLatch, m: &mut FramingLatch, b: bool)
    requires
        call_ensures(FramingLatch::new, (), l),
        call_ensures(FramingLatch::set_manual, (m,), ()),
        call_ensures(FramingLatch::is_manual, (&l,), b),
    ensures
        !b,
        !l.spec_manual(),
        final(m).spec_manual(),
{
}

} // verus!
