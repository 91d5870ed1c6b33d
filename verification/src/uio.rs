use vstd::prelude::*;

verus! {

/// The number of bytes that one round of scattered reads moves.
pub const WRITE_LEN: usize = 192;

/// `b` is an ASCII letter or digit.
pub open spec fn is_alphanumeric(b: u8) -> bool {
    (48 <= b <= 57) || (65 <= b <= 90) || (97 <= b <= 122)
}

/// Draws one byte from `rand`'s `Alphanumeric` distribution, which picks
/// among the 62 ASCII letters and digits; only that the byte is one of them
/// is claimed.
#[verifier::external_body]
fn sample_alphanumeric() -> (res: u8)
    ensures
        is_alphanumeric(res),
{
    rand::Rng::sample(&mut rand::thread_rng(), rand::distributions::Alphanumeric)
}

/// Draws a number from `rand`'s `gen_range` over `low .. high`; only that it
/// lies in that range is claimed (`gen_range` panics on an empty range).
#[verifier::external_body]
fn sample_in_range(low: usize, high: usize) -> (res: usize)
    requires
        low < high,
    ensures
        low <= res < high,
{
    rand::Rng::gen_range(&mut rand::thread_rng(), low..high)
}

/// `WRITE_LEN` random ASCII letters and digits.
pub fn gen_data() -> (res: Vec<u8>)
    ensures
        res.len() == WRITE_LEN,
        forall|i: int| 0 <= i < res.len() ==> is_alphanumeric(#[trigger] res[i]),
{
    let mut res: Vec<u8> = Vec::new();
    let mut i: usize = 0;
    while i < WRITE_LEN
        invariant
            i <= WRITE_LEN,
            res.len() == i,
            forall|j: int| 0 <= j < res.len() ==> is_alphanumeric(#[trigger] res[j]),
        decreases WRITE_LEN - i,
    {
        let b = sample_alphanumeric();
        res.push(b);
        i = i + 1;
    }
    res
}

/// The sum of the lengths `s`.
pub open spec fn total(s: Seq<usize>) -> int
    decreases s.len(),
{
    if s.len() == 0 {
        0
    } else {
        total(s.drop_last()) + s.last()
    }
}

/// Lengths of buffers that together take `len` bytes: while more than 64
/// bytes are left, a random length of at least 64 and below both 256 and
/// what is left; then the rest, of at most 64 bytes.
pub fn chunk_lengths(len: usize) -> (res: Vec<usize>)
    ensures
        total(res@) == len,
        len == 0 <==> res.len() == 0,
        forall|k: int| 0 <= k < res.len() - 1 ==> 64 <= #[trigger] res[k] < 256,
        res.len() > 0 ==> 1 <= res[res.len() - 1] <= 64,
{
    let mut res: Vec<usize> = Vec::new();
    let mut allocated: usize = 0;
    while allocated < len
        invariant
            allocated <= len,
            total(res@) == allocated,
            allocated == 0 <==> res.len() == 0,
            res.len() > 0 ==> allocated < len,
            forall|k: int| 0 <= k < res.len() ==> 64 <= #[trigger] res[k] < 256,
        ensures
            total(res@) == len,
            len == 0 <==> res.len() == 0,
            forall|k: int| 0 <= k < res.len() - 1 ==> 64 <= #[trigger] res[k] < 256,
            res.len() > 0 ==> 1 <= res[res.len() - 1] <= 64,
        decreases len - allocated,
    {
        let left = len - allocated;
        if left <= 64 {
            let ghost prev = res@;
            res.push(left);
            assert(res@.drop_last() =~= prev);
            return res;
        }
        let high = if left < 256 {
            left
        } else {
            256
        };
        let vec_len = sample_in_range(64, high);
        let ghost prev = res@;
        res.push(vec_len);
        assert(res@.drop_last() =~= prev);
        allocated = allocated + vec_len;
    }
    res
}

/// What a file that was empty holds after `data` has been written at
/// `offset`: `offset` zero bytes, then `data`.
pub fn expected_after_write(offset: usize, data: &[u8]) -> (res: Vec<u8>)
    requires
        offset + data@.len() <= usize::MAX,
    ensures
        res@ == Seq::new(offset as nat, |i: int| 0u8) + data@,
{
    let mut res: Vec<u8> = Vec::new();
    let mut i: usize = 0;
    while i < offset
        invariant
            i <= offset,
            res@ == Seq::new(i as nat, |j: int| 0u8),
        decreases offset - i,
    {
        res.push(0u8);
        i = i + 1;
        assert(res@ =~= Seq::new(i as nat, |j: int| 0u8));
    }
    let mut j: usize = 0;
    while j < data.len()
        invariant
            j <= data@.len(),
            res@ == Seq::new(offset as nat, |k: int| 0u8) + data@.subrange(0, j as int),
        decreases data@.len() - j,
    {
        res.push(data[j]);
        j = j + 1;
        assert(res@ =~= Seq::new(offset as nat, |k: int| 0u8) + data@.subrange(0, j as int));
    }
    assert(data@.subrange(0, data@.len() as int) =~= data@);
    res
}

/// The bytes of `chunks`, one chunk after another.
pub fn gather(chunks: &Vec<Vec<u8>>) -> (res: Vec<u8>)
    ensures
        res@ == chunks.deep_view().flatten(),
{
    let ghost parts = chunks.deep_view();
    let mut res: Vec<u8> = Vec::new();
    let mut i: usize = 0;
    while i < chunks.len()
        invariant
            parts == chunks.deep_view(),
            i <= chunks.len(),
            res@ == parts.take(i as int).flatten_alt(),
        decreases chunks.len() - i,
    {
        let chunk = &chunks[i];
        let ghost start = res@;
        let mut j: usize = 0;
        while j < chunk.len()
            invariant
                j <= chunk@.len(),
                res@ == start + chunk@.subrange(0, j as int),
            decreases chunk@.len() - j,
        {
            res.push(chunk[j]);
            j = j + 1;
            assert(res@ =~= start + chunk@.subrange(0, j as int));
        }
        proof {
            assert(chunk@.subrange(0, chunk@.len() as int) =~= chunk@);
            assert(parts.take(i + 1).drop_last() =~= parts.take(i as int));
            assert(parts.take(i + 1).last() == parts[i as int]);
            assert(parts[i as int] == chunk@);
        }
        i = i + 1;
    }
    proof {
        assert(parts.take(chunks.len() as int) =~= parts);
        parts.lemma_flatten_and_flatten_alt_are_equivalent();
    }
    res
}

/// The lengths of no buffers add up to nothing, and adding a buffer adds
/// its length; the lengths of a single buffer add up to that length.
pub proof fn lemma_total(s: Seq<usize>, x: usize)
    ensures
        total(Seq::<usize>::empty()) == 0,
        total(s.push(x)) == total(s) + x,
        total(seq![x]) == x,
{
    assert(s.push(x).drop_last() =~= s);
    assert(seq![x].drop_last() =~= Seq::<usize>::empty());
}

} // verus!
