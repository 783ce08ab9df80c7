use vstd::prelude::*;

verus! {

/// One frame of a message.
#[derive(Debug)]
pub struct Msg {
    /// The frame's bytes.
    pub data: Vec<u8>,
    /// Whether another frame of the same message follows.
    pub more: bool,
    /// Whether the frame is a protocol command rather than data.
    pub command: bool,
    /// The group that the frame is published to, in the RADIO and DISH patterns.
    pub group: Option<Vec<u8>>,
}

/// A frame as a mathematical value.
#[verifier::ext_equal]
pub struct Frame {
    pub data: Seq<u8>,
    pub more: bool,
    pub command: bool,
    pub group: Option<Seq<u8>>,
}

impl View for Msg {
    type V = Frame;

    open spec fn view(&self) -> Frame {
        Frame {
            data: self.data@,
            more: self.more,
            command: self.command,
            group: match self.group {
                Some(g) => Some(g@),
                None => None,
            },
        }
    }
}

impl Frame {
    /// The same frame with its MORE flag set as given.
    pub open spec fn with_more(self, more: bool) -> Frame {
        Frame { more, ..self }
    }

    /// A frame of the given bytes, with no flag and no group.
    pub open spec fn of(data: Seq<u8>) -> Frame {
        Frame { data, more: false, command: false, group: None }
    }
}

/// A list of frames as mathematical values.
pub open spec fn frames_of(msgs: Seq<Msg>) -> Seq<Frame> {
    Seq::new(msgs.len(), |i: int| msgs[i]@)
}

/// The frames of one message, marked as such: every frame but the last has MORE set.
pub open spec fn marked(frames: Seq<Frame>) -> Seq<Frame> {
    Seq::new(frames.len(), |i: int| frames[i].with_more(i < frames.len() - 1))
}

/// Every frame but the last has MORE set, and the last has not.
pub open spec fn is_one_message(frames: Seq<Frame>) -> bool {
    forall|i: int| 0 <= i < frames.len() ==> (#[trigger] frames[i]).more == (i < frames.len() - 1)
}

/// The frames with the last one's MORE flag cleared.
pub open spec fn last_cleared(frames: Seq<Frame>) -> Seq<Frame> {
    if frames.len() == 0 {
        frames
    } else {
        frames.update(frames.len() - 1, frames.last().with_more(false))
    }
}

/// A copy of some bytes.
pub fn copy_bytes(bytes: &Vec<u8>) -> (v: Vec<u8>)
    ensures
        v@ == bytes@,
{
    let mut v: Vec<u8> = Vec::new();
    let mut i: usize = 0;
    while i < bytes.len()
        invariant
            i <= bytes@.len(),
            v@ == bytes@.take(i as int),
        decreases bytes@.len() - i,
    {
        v.push(bytes[i]);
        i += 1;
    }
    assert(bytes@.take(bytes@.len() as int) == bytes@);
    v
}

/// Whether two byte strings are the same.
pub fn same_bytes(a: &Vec<u8>, b: &Vec<u8>) -> (r: bool)
    ensures
        r == (a@ == b@),
{
    if a.len() != b.len() {
        return false;
    }
    let mut i: usize = 0;
    while i < a.len()
        invariant
            i <= a@.len(),
            a@.len() == b@.len(),
            forall|j: int| 0 <= j < i ==> a@[j] == b@[j],
        decreases a@.len() - i,
    {
        if a[i] != b[i] {
            return false;
        }
        i += 1;
    }
    assert(a@ =~= b@);
    true
}

impl Msg {
    /// An empty frame.
    pub fn new() -> (m: Msg)
        ensures
            m@ == Frame::of(Seq::empty()),
    {
        Msg { data: Vec::new(), more: false, command: false, group: None }
    }

    /// A frame of the given bytes.
    pub fn from_vec(data: Vec<u8>) -> (m: Msg)
        ensures
            m@ == Frame::of(data@),
    {
        Msg { data, more: false, command: false, group: None }
    }

    /// The number of bytes.
    pub fn size(&self) -> (n: usize)
        ensures
            n == self@.data.len(),
    {
        self.data.len()
    }

    pub fn is_more(&self) -> (b: bool)
        ensures
            b == self@.more,
    {
        self.more
    }

    pub fn is_command(&self) -> (b: bool)
        ensures
            b == self@.command,
    {
        self.command
    }

    pub fn set_more(&mut self, more: bool)
        ensures
            final(self)@ == old(self)@.with_more(more),
    {
        self.more = more;
    }
}

impl Clone for Msg {
    fn clone(&self) -> (m: Msg)
        ensures
            m@ == self@,
    {
        Msg {
            data: copy_bytes(&self.data),
            more: self.more,
            command: self.command,
            group: match &self.group {
                Some(g) => Some(copy_bytes(g)),
                None => None,
            },
        }
    }
}

/// A copy of a list of frames.
pub fn copy_frames(frames: &Vec<Msg>) -> (v: Vec<Msg>)
    ensures
        frames_of(v@) == frames_of(frames@),
{
    let mut v: Vec<Msg> = Vec::new();
    let mut i: usize = 0;
    while i < frames.len()
        invariant
            i <= frames@.len(),
            v@.len() == i,
            forall|j: int| 0 <= j < i ==> (#[trigger] v@[j])@ == frames@[j]@,
        decreases frames@.len() - i,
    {
        v.push(frames[i].clone());
        i += 1;
    }
    assert(frames_of(v@) =~= frames_of(frames@));
    v
}

/// Marks a list of frames as one message.
pub fn mark_frames(frames: Vec<Msg>) -> (r: Vec<Msg>)
    ensures
        frames_of(r@) == marked(frames_of(frames@)),
{
    let mut frames = frames;
    let ghost before = frames@;
    let n: usize = frames.len();
    let mut i: usize = 0;
    while i < n
        invariant
            i <= n,
            n == before.len(),
            frames@.len() == n,
            forall|j: int| 0 <= j < i ==> (#[trigger] frames@[j])@ == before[j]@.with_more(j < n - 1),
            forall|j: int| i <= j < n ==> #[trigger] frames@[j] == before[j],
        decreases n - i,
    {
        frames[i].set_more(i < n - 1);
        i += 1;
    }
    assert(frames_of(frames@) =~= marked(frames_of(before)));
    frames
}

/// Clears the MORE flag of the last frame.
pub fn clear_last(frames: Vec<Msg>) -> (r: Vec<Msg>)
    ensures
        frames_of(r@) == last_cleared(frames_of(frames@)),
{
    let mut frames = frames;
    let ghost before = frames@;
    let n: usize = frames.len();
    if n > 0 {
        frames[n - 1].set_more(false);
    }
    assert(frames_of(frames@) =~= last_cleared(frames_of(before)));
    frames
}

/// Marking makes one message of frames, changes nothing but their MORE flags, and leaves one
/// message as it is.
pub proof fn marking_makes_one_message(frames: Seq<Frame>)
    ensures
        is_one_message(marked(frames)),
        marked(frames).len() == frames.len(),
        forall|i: int|
            0 <= i < frames.len() ==> (#[trigger] marked(frames)[i]) == frames[i].with_more(
                i < frames.len() - 1,
            ),
        is_one_message(frames) ==> marked(frames) == frames,
{
    if is_one_message(frames) {
        assert forall|i: int| 0 <= i < frames.len() implies marked(frames)[i] == frames[i] by {
            assert(frames[i].with_more(i < frames.len() - 1) == frames[i]);
        }
        assert(marked(frames) =~= frames);
    }
}

/// A message has MORE on every frame but the last, which is how its end is known; nothing else
/// of it is changed by marking.
pub proof fn marking_sets_more_on_all_but_the_last(frames: Vec<Msg>, r: Vec<Msg>, i: int)
    requires
        call_ensures(mark_frames, (frames,), r),
        0 <= i < frames@.len(),
    ensures
        r@.len() == frames@.len(),
        i < frames@.len() - 1 ==> r@[i]@.more,
        i == frames@.len() - 1 ==> !r@[i]@.more,
        r@[i]@.data == frames@[i]@.data,
        r@[i]@.command == frames@[i]@.command,
        r@[i]@.group == frames@[i]@.group,
{
    assert(frames_of(r@).len() == marked(frames_of(frames@)).len());
    assert(frames_of(r@)[i] == marked(frames_of(frames@))[i]);
}

/// Only the last frame's MORE is cleared.
pub proof fn only_the_last_frame_is_cleared(frames: Vec<Msg>, r: Vec<Msg>, i: int)
    requires
        call_ensures(clear_last, (frames,), r),
        0 <= i < frames@.len(),
    ensures
        r@.len() == frames@.len(),
        i < frames@.len() - 1 ==> r@[i]@ == frames@[i]@,
        i == frames@.len() - 1 ==> !r@[i]@.more && r@[i]@.data == frames@[i]@.data && r@[i]@.group
            == frames@[i]@.group && r@[i]@.command == frames@[i]@.command,
{
    assert(frames_of(r@).len() == last_cleared(frames_of(frames@)).len());
    assert(frames_of(r@)[i] == last_cleared(frames_of(frames@))[i]);
}

/// A copy is the same, frame by frame.
pub proof fn copies_are_the_same(
    frames: &Vec<Msg>,
    r: Vec<Msg>,
    bytes: &Vec<u8>,
    copy: Vec<u8>,
    i: int,
)
    requires
        call_ensures(copy_frames, (frames,), r),
        call_ensures(copy_bytes, (bytes,), copy),
        0 <= i < frames@.len(),
    ensures
        r@.len() == frames@.len(),
        r@[i]@ == frames@[i]@,
        copy@ == bytes@,
{
    assert(frames_of(r@).len() == frames_of(frames@).len());
    assert(frames_of(r@)[i] == frames_of(frames@)[i]);
}

/// A new frame is empty, a frame of some bytes holds just these, and neither has a flag or a
/// group.
pub proof fn new_frames_are_plain(a: Msg, data: Vec<u8>, b: Msg, n: usize)
    requires
        call_ensures(Msg::new, (), a),
        call_ensures(Msg::from_vec, (data,), b),
        call_ensures(Msg::size, (&b,), n),
    ensures
        a@.data.len() == 0 && !a@.more && !a@.command && a@.group is None,
        b@.data == data@ && !b@.more && !b@.command && b@.group is None,
        n == data@.len(),
{
}

/// A frame's flags are those that it has, and setting MORE changes nothing else.
pub proof fn flags_are_as_set(m: &mut Msg, more: bool, a: &Msg, is_more: bool, is_command: bool)
    requires
        call_ensures(Msg::set_more, (m, more), ()),
        call_ensures(Msg::is_more, (a,), is_more),
        call_ensures(Msg::is_command, (a,), is_command),
    ensures
        final(m)@.more == more,
        final(m)@.data == old(m)@.data,
        final(m)@.command == old(m)@.command,
        final(m)@.group == old(m)@.group,
        is_more == a.more,
        is_command == a.command,
{
}

/// Two byte strings are the same exactly where they are as long and every byte is the same.
pub proof fn sameness_is_byte_by_byte(a: &Vec<u8>, b: &Vec<u8>, r: bool)
    requires
        call_ensures(same_bytes, (a, b), r),
    ensures
        r <==> a@.len() == b@.len() && (forall|i: int|
            0 <= i < a@.len() ==> #[trigger] a@[i] == b@[i]),
{
    if a@.len() == b@.len() && (forall|i: int| 0 <= i < a@.len() ==> #[trigger] a@[i] == b@[i]) {
        assert(a@ =~= b@);
    }
}

} // verus!
