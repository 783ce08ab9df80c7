use vstd::prelude::*;
use vstd::slice::slice_to_vec;
use vstd::string::*;

verus! {

/// The messaging pattern of a socket.
#[derive(Debug, Clone, Copy, PartialEq, Eq, Hash, Structural)]
pub enum SocketType {
    /// Distributes messages to every subscriber.
    Pub,
    /// Receives the messages of the topics that it subscribes to.
    Sub,
    /// Sends a request, then receives its reply.
    Req,
    /// Receives a request, then sends its reply.
    Rep,
    /// Shares messages out among its peers and receives from all of them.
    Dealer,
    /// Receives messages with their sender's identity and sends by identity.
    Router,
    /// Shares messages out among its workers.
    Push,
    /// Collects the messages of many senders.
    Pull,
    /// Publishes messages to groups.
    Radio,
    /// Receives the messages of the groups that it has joined.
    Dish,
}

/// The four bytes of a number, the lowest first.
pub open spec fn low_first(x: u32) -> Seq<u8> {
    seq![
        (x % 256) as u8,
        (x / 256 % 256) as u8,
        (x / 65536 % 256) as u8,
        (x / 16777216) as u8,
    ]
}

/// The four bytes of a number, the highest first.
pub open spec fn high_first(x: u32) -> Seq<u8> {
    seq![
        (x / 16777216) as u8,
        (x / 65536 % 256) as u8,
        (x / 256 % 256) as u8,
        (x % 256) as u8,
    ]
}

/// `u32::to_ne_bytes`: the bytes of a number in the order in which the machine stores
/// them. Which of the two orders that is, is the machine's.
#[verifier::external_body]
fn native_bytes(x: u32) -> (v: Vec<u8>)
    ensures
        v@ == low_first(x) || v@ == high_first(x),
{
    x.to_ne_bytes().to_vec()
}

/// What can be the value of an option.
pub trait ToBytes {
    fn to_bytes(&self) -> Vec<u8>;
}

impl ToBytes for Vec<u8> {
    fn to_bytes(&self) -> (r: Vec<u8>)
        ensures
            r@ == self@,
    {
        slice_to_vec(self.as_slice())
    }
}

impl ToBytes for &[u8] {
    fn to_bytes(&self) -> (r: Vec<u8>)
        ensures
            r@ == self@,
    {
        slice_to_vec(self)
    }
}

impl<const N: usize> ToBytes for &[u8; N] {
    fn to_bytes(&self) -> (r: Vec<u8>)
        ensures
            r@ == self@,
    {
        slice_to_vec(self.as_slice())
    }
}

impl ToBytes for i32 {
    fn to_bytes(&self) -> (r: Vec<u8>)
        ensures
            r@ == low_first(*self as u32) || r@ == high_first(*self as u32),
    {
        native_bytes(#[verifier::truncate] (*self as u32))
    }
}

impl ToBytes for u32 {
    fn to_bytes(&self) -> (r: Vec<u8>)
        ensures
            r@ == low_first(*self) || r@ == high_first(*self),
    {
        native_bytes(*self)
    }
}

impl ToBytes for bool {
    fn to_bytes(&self) -> (r: Vec<u8>)
        ensures
            *self ==> r@ == low_first(1) || r@ == high_first(1),
            !*self ==> r@ == seq![0u8, 0, 0, 0],
    {
        let int_val: u32 = if *self {
            1
        } else {
            0
        };
        let r = native_bytes(int_val);
        assert(!*self ==> r@ =~= seq![0u8, 0, 0, 0]);
        r
    }
}

impl ToBytes for String {
    fn to_bytes(&self) -> (r: Vec<u8>)
        ensures
            r@ == vstd::utf8::encode_utf8(self@),
    {
        slice_to_vec(self.as_str().as_bytes())
    }
}

impl ToBytes for &str {
    fn to_bytes(&self) -> (r: Vec<u8>)
        ensures
            r@ == vstd::utf8::encode_utf8(self@),
    {
        slice_to_vec(self.as_bytes())
    }
}

/// The bytes of a number stand for that number, in one of the two orders of a machine.
pub proof fn number_bytes_stand_for_the_number(x: u32, r: Vec<u8>, y: i32, s: Vec<u8>)
    requires
        call_ensures(<u32 as ToBytes>::to_bytes, (&x,), r),
        call_ensures(<i32 as ToBytes>::to_bytes, (&y,), s),
    ensures
        r@.len() == 4,
        x == r@[0] + 256 * r@[1] + 65536 * r@[2] + 16777216 * r@[3] || x == r@[3] + 256 * r@[2]
            + 65536 * r@[1] + 16777216 * r@[0],
        s@.len() == 4,
        y >= 0 ==> (y == s@[0] + 256 * s@[1] + 65536 * s@[2] + 16777216 * s@[3] || y == s@[3] + 256
            * s@[2] + 65536 * s@[1] + 16777216 * s@[0]),
{
}

/// A truth value is written as four bytes that are all zero exactly where it is false; texts
/// and bytes are written as they are.
pub proof fn values_are_written_as_they_are(
    b: bool,
    r: Vec<u8>,
    bytes: Vec<u8>,
    s: Vec<u8>,
    text: String,
    t: Vec<u8>,
)
    requires
        call_ensures(<bool as ToBytes>::to_bytes, (&b,), r),
        call_ensures(<Vec<u8> as ToBytes>::to_bytes, (&bytes,), s),
        call_ensures(<String as ToBytes>::to_bytes, (&text,), t),
    ensures
        r@.len() == 4,
        b <==> exists|i: int| 0 <= i < 4 && #[trigger] r@[i] != 0,
        s@ == bytes@,
        t@ == vstd::utf8::encode_utf8(text@),
{
    if b {
        assert(low_first(1)[0] == 1);
        assert(high_first(1)[3] == 1);
        assert(r@[0] != 0 || r@[3] != 0);
    }
}

} // verus!
