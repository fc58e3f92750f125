//! Random numbers for guests.
use vstd::prelude::*;

verus! {

/// Maximum byte count for a single random-bytes allocation (16 MiB).
pub const MAX_ALLOC_BYTES: u64 = 16_777_216;

/// A failure of the system's source of random numbers. It is carried through
/// as an opaque value.
#[verifier::external_type_specification]
#[verifier::external_body]
pub struct ExRandomError(getrandom::Error);

/// The system has no random numbers to give.
#[derive(Debug, Clone, Copy, PartialEq, Eq, Structural)]
pub struct RandomUnavailable;

/// Fills a buffer with `getrandom::fill` and hands it back. Its length stays as
/// it is, and an empty buffer is filled without asking the system. Which bytes
/// it then holds is up to chance.
#[verifier::external_body]
fn filled(buffer: Vec<u8>) -> (r: Result<Vec<u8>, getrandom::Error>)
    ensures
        r matches Ok(bytes) ==> bytes@.len() == buffer@.len(),
        buffer@.len() == 0 ==> r is Ok,
{
    let mut bytes = buffer;
    match getrandom::fill(&mut bytes) {
        Ok(()) => Ok(bytes),
        Err(error) => Err(error),
    }
}

/// `getrandom::u64` draws a number. Which one is up to chance, and the system
/// may have none to give, so nothing is claimed of the result.
pub assume_specification[getrandom::u64]() -> (r: Result<u64, getrandom::Error>);

/// How many bytes are handed out where `len` are asked for.
pub open spec fn granted(len: u64) -> nat {
    if len <= MAX_ALLOC_BYTES {
        len as nat
    } else {
        MAX_ALLOC_BYTES as nat
    }
}

/// The buffer that is filled where `len` bytes are asked for.
pub open spec fn blank(len: u64) -> Seq<u8> {
    Seq::new(granted(len), |i: int| 0u8)
}

/// The buffer that is filled where `len` bytes are asked for.
pub fn random_buffer(len: u64) -> (r: Vec<u8>)
    ensures
        r@ == blank(len),
{
    let capped: usize = if len <= MAX_ALLOC_BYTES {
        len as usize
    } else {
        MAX_ALLOC_BYTES as usize
    };
    let mut r: Vec<u8> = Vec::new();
    r.resize(capped, 0u8);
    assert(r@ =~= blank(len));
    r
}

/// `drawn` is what the system's source can make of `buffer` by filling it.
pub closed spec fn can_fill(buffer: Vec<u8>, drawn: Result<Vec<u8>, getrandom::Error>) -> bool {
    call_ensures(filled, (buffer,), drawn)
}

/// What is handed out of a filled buffer: its bytes, or that there were none.
pub open spec fn drawn_bytes(
    drawn: Result<Vec<u8>, getrandom::Error>,
) -> Result<Vec<u8>, RandomUnavailable> {
    match drawn {
        Ok(bytes) => Ok(bytes),
        Err(_) => Err(RandomUnavailable),
    }
}

/// `bytes` is what the system's source can hand out where `len` bytes are
/// asked for.
pub open spec fn bytes_can_be_drawn(
    len: u64,
    bytes: Result<Vec<u8>, RandomUnavailable>,
) -> bool {
    exists|buffer: Vec<u8>, drawn: Result<Vec<u8>, getrandom::Error>|
        buffer@ == blank(len) && #[trigger] can_fill(buffer, drawn) && bytes == drawn_bytes(drawn)
}

/// The bytes of a filled buffer.
pub fn bytes_from(drawn: Result<Vec<u8>, getrandom::Error>) -> (r: Result<
    Vec<u8>,
    RandomUnavailable,
>)
    ensures
        r == drawn_bytes(drawn),
{
    match drawn {
        Ok(bytes) => Ok(bytes),
        Err(_) => Err(RandomUnavailable),
    }
}

/// Random bytes, as the system's source gave them: as many as asked for, up to
/// the bound on one allocation.
pub fn get_random_bytes(len: u64) -> (r: Result<Vec<u8>, RandomUnavailable>)
    ensures
        bytes_can_be_drawn(len, r),
        r matches Ok(bytes) ==> bytes@.len() == granted(len),
        len == 0 ==> r is Ok,
{
    let buffer = random_buffer(len);
    let ghost before = buffer;
    let drawn = filled(buffer);
    assert(can_fill(before, drawn));
    bytes_from(drawn)
}

/// What is handed out of a draw: its number, or that there was none.
pub open spec fn drawn_number(
    drawn: Result<u64, getrandom::Error>,
) -> Result<u64, RandomUnavailable> {
    match drawn {
        Ok(n) => Ok(n),
        Err(_) => Err(RandomUnavailable),
    }
}

/// `number` is what a draw of the system's random numbers can hand out.
pub open spec fn can_be_drawn(number: Result<u64, RandomUnavailable>) -> bool {
    exists|drawn: Result<u64, getrandom::Error>|
        #[trigger] call_ensures(getrandom::u64, (), drawn) && number == drawn_number(drawn)
}

/// The number of a draw.
pub fn number_from(drawn: Result<u64, getrandom::Error>) -> (r: Result<u64, RandomUnavailable>)
    ensures
        r == drawn_number(drawn),
{
    match drawn {
        Ok(n) => Ok(n),
        Err(_) => Err(RandomUnavailable),
    }
}

/// A random number, as the system's source gave it. Any number may come back,
/// and the system may have none to give.
pub fn get_random_u64() -> (r: Result<u64, RandomUnavailable>)
    ensures
        can_be_drawn(r),
{
    number_from(getrandom::u64())
}

/// Bytes for which predictability does no harm. They are drawn like all
/// others.
pub fn get_insecure_random_bytes(len: u64) -> (r: Result<Vec<u8>, RandomUnavailable>)
    ensures
        bytes_can_be_drawn(len, r),
        r matches Ok(bytes) ==> bytes@.len() == granted(len),
        len == 0 ==> r is Ok,
{
    get_random_bytes(len)
}

/// A number for which predictability does no harm. It is drawn like all
/// others.
pub fn get_insecure_random_u64() -> (r: Result<u64, RandomUnavailable>)
    ensures
        can_be_drawn(r),
{
    get_random_u64()
}

/// Two numbers to seed a hash with, or none where either could not be drawn.
pub open spec fn seed_pair(
    first: Result<u64, RandomUnavailable>,
    second: Result<u64, RandomUnavailable>,
) -> Result<(u64, u64), RandomUnavailable> {
    match (first, second) {
        (Ok(a), Ok(b)) => Ok((a, b)),
        _ => Err(RandomUnavailable),
    }
}

/// Two drawn numbers as one seed.
pub fn seed_from(
    first: Result<u64, RandomUnavailable>,
    second: Result<u64, RandomUnavailable>,
) -> (r: Result<(u64, u64), RandomUnavailable>)
    ensures
        r == seed_pair(first, second),
{
    match (first, second) {
        (Ok(a), Ok(b)) => Ok((a, b)),
        _ => Err(RandomUnavailable),
    }
}

/// Two random numbers to seed a hash with. Each is one that a draw can hand out;
/// how the two relate is up to chance.
pub fn insecure_seed() -> (r: Result<(u64, u64), RandomUnavailable>)
    ensures
        exists|first: Result<u64, RandomUnavailable>, second: Result<u64, RandomUnavailable>|
            #[trigger] can_be_drawn(first) && #[trigger] can_be_drawn(second)
                && r == seed_pair(first, second),
{
    let first = get_random_u64();
    let second = get_random_u64();
    seed_from(first, second)
}

/// Whoever asks for bytes gets exactly as many, up to the bound on one
/// allocation, and exactly the bound where more are asked for; asked for
/// nothing, nothing is handed out, and that never fails.
pub proof fn law_random_bytes_are_as_many_as_asked(
    len: u64,
    bytes: Result<Vec<u8>, RandomUnavailable>,
    insecure: Result<Vec<u8>, RandomUnavailable>,
    buffer: Vec<u8>,
)
    requires
        call_ensures(get_random_bytes, (len,), bytes),
        call_ensures(get_insecure_random_bytes, (len,), insecure),
        call_ensures(random_buffer, (len,), buffer),
    ensures
        MAX_ALLOC_BYTES == 16 * 1024 * 1024,
        len <= MAX_ALLOC_BYTES ==> buffer@.len() == len,
        len > MAX_ALLOC_BYTES ==> buffer@.len() == MAX_ALLOC_BYTES,
        forall|i: int| 0 <= i < buffer@.len() ==> #[trigger] buffer@[i] == 0,
        bytes matches Ok(b) ==> {
            &&& len <= MAX_ALLOC_BYTES ==> b@.len() == len
            &&& len > MAX_ALLOC_BYTES ==> b@.len() == MAX_ALLOC_BYTES
        },
        insecure matches Ok(b) ==> {
            &&& len <= MAX_ALLOC_BYTES ==> b@.len() == len
            &&& len > MAX_ALLOC_BYTES ==> b@.len() == MAX_ALLOC_BYTES
        },
        len == 0 ==> bytes is Ok && insecure is Ok,
{
}

/// The buffer that is handed to the system's source holds exactly as many bytes
/// as were asked for, up to the bound on one allocation.
pub proof fn law_buffers_are_as_large_as_asked(len: u64)
    ensures
        len <= MAX_ALLOC_BYTES ==> blank(len).len() == len && granted(len) == len,
        len > MAX_ALLOC_BYTES ==> blank(len).len() == MAX_ALLOC_BYTES && granted(len)
            == MAX_ALLOC_BYTES,
{
}

/// What the system's source gave is handed out unchanged, and a failure of it
/// as one.
pub proof fn law_draws_are_handed_out_unchanged(
    bytes: Result<Vec<u8>, getrandom::Error>,
    number: Result<u64, getrandom::Error>,
    first: Result<u64, RandomUnavailable>,
    second: Result<u64, RandomUnavailable>,
)
    ensures
        bytes is Ok <==> drawn_bytes(bytes) is Ok,
        bytes matches Ok(b) ==> drawn_bytes(bytes)->Ok_0 == b,
        number is Ok <==> drawn_number(number) is Ok,
        number matches Ok(n) ==> drawn_number(number)->Ok_0 == n,
        seed_pair(first, second) is Ok <==> first is Ok && second is Ok,
        seed_pair(first, second) matches Ok((a, b)) ==> first->Ok_0 == a && second->Ok_0 == b,
{
}

/// What was drawn comes out of the calls that hand it out, and a seed is made of
/// its two numbers in their order.
pub proof fn law_what_was_drawn_comes_out(
    drawn: Result<Vec<u8>, getrandom::Error>,
    bytes: Result<Vec<u8>, RandomUnavailable>,
    one: Result<u64, getrandom::Error>,
    number: Result<u64, RandomUnavailable>,
    first: Result<u64, RandomUnavailable>,
    second: Result<u64, RandomUnavailable>,
    seed: Result<(u64, u64), RandomUnavailable>,
)
    requires
        call_ensures(bytes_from, (drawn,), bytes),
        call_ensures(number_from, (one,), number),
        call_ensures(seed_from, (first, second), seed),
    ensures
        bytes is Ok <==> drawn is Ok,
        bytes matches Ok(b) ==> drawn->Ok_0 == b,
        number is Ok <==> one is Ok,
        number matches Ok(n) ==> one->Ok_0 == n,
        seed is Ok <==> first is Ok && second is Ok,
        seed matches Ok(pair) ==> pair.0 == first->Ok_0 && pair.1 == second->Ok_0,
{
}

} // verus!
