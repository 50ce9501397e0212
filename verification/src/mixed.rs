use vstd::prelude::*;

verus! {

use vstd::utf8::decode_utf8;
use vstd::utf8::decode_utf8_encode_utf8;
use vstd::utf8::encode_utf8;
use vstd::utf8::encode_utf8_decode_utf8;
use vstd::utf8::encode_utf8_valid_utf8;
use vstd::utf8::valid_utf8;
use vstd::slice::slice_subrange;
use vstd::slice::slice_to_vec;
use vstd::string::StringExecFns;
use vstd::string::StrSliceExecFns;

/// One segment of a [`MixedString`]: a run that decoded as valid UTF-8,
/// a run of raw bytes that did not, or the marker left behind when the
/// input ended in the middle of a multi-byte sequence.
#[derive(Debug, Clone)]
pub enum Mixed {
    Text(String),
    Byte(Vec<u8>),
    UnexpectedEOF,
}

/// The mathematical shape of a segment: its text as characters, its raw
/// bytes, or the truncation marker.
pub enum Seg {
    Text(Seq<char>),
    Byte(Seq<u8>),
    Trunc,
}

impl View for Mixed {
    type V = Seg;

    open spec fn view(&self) -> Seg {
        match self {
            Mixed::Text(s) => Seg::Text(s@),
            Mixed::Byte(b) => Seg::Byte(b@),
            Mixed::UnexpectedEOF => Seg::Trunc,
        }
    }
}

impl DeepView for Mixed {
    type V = Seg;

    open spec fn deep_view(&self) -> Seg {
        self.view()
    }
}

/// A filesystem path as an interleaving of valid UTF-8 runs and raw byte
/// runs.  Any byte sequence can be held, and the original bytes are kept
/// exactly; recognizable UTF-8 regions render as text.
#[derive(Debug, Clone)]
pub struct MixedString {
    data: Vec<Mixed>,
}

impl View for MixedString {
    type V = Seq<Seg>;

    closed spec fn view(&self) -> Seq<Seg> {
        self.data.deep_view()
    }
}

impl DeepView for MixedString {
    type V = Seq<Seg>;

    open spec fn deep_view(&self) -> Seq<Seg> {
        self.view()
    }
}

/// The bytes a single segment stands for.  A text segment stands for its
/// UTF-8 encoding, a byte segment for its bytes, the truncation marker
/// for nothing.
pub open spec fn seg_bytes(s: Seg) -> Seq<u8> {
    match s {
        Seg::Text(t) => encode_utf8(t),
        Seg::Byte(b) => b,
        Seg::Trunc => Seq::empty(),
    }
}

/// The bytes a whole segment sequence stands for: the concatenation of
/// the bytes of each segment.
pub open spec fn mixed_bytes(segs: Seq<Seg>) -> Seq<u8>
    decreases segs.len(),
{
    if segs.len() == 0 {
        Seq::empty()
    } else {
        seg_bytes(segs[0]) + mixed_bytes(segs.drop_first())
    }
}

/// The lower-case hexadecimal digit for a value below sixteen.
pub open spec fn hex_digit(n: u8) -> char {
    if n == 0 { '0' }
    else if n == 1 { '1' }
    else if n == 2 { '2' }
    else if n == 3 { '3' }
    else if n == 4 { '4' }
    else if n == 5 { '5' }
    else if n == 6 { '6' }
    else if n == 7 { '7' }
    else if n == 8 { '8' }
    else if n == 9 { '9' }
    else if n == 10 { 'a' }
    else if n == 11 { 'b' }
    else if n == 12 { 'c' }
    else if n == 13 { 'd' }
    else if n == 14 { 'e' }
    else { 'f' }
}

/// How one raw byte renders as text: a backslash-u escape with two
/// lower-case hexadecimal digits.
pub open spec fn escape_byte(b: u8) -> Seq<char> {
    seq!['\\', 'u', '{', hex_digit(b / 16), hex_digit(b % 16), '}']
}

/// How a run of raw bytes renders as text: each byte escaped in turn.
pub open spec fn escape_bytes(b: Seq<u8>) -> Seq<char>
    decreases b.len(),
{
    if b.len() == 0 {
        Seq::empty()
    } else {
        escape_byte(b[0]) + escape_bytes(b.drop_first())
    }
}

/// How a single segment renders as text.
pub open spec fn seg_chars(s: Seg) -> Seq<char> {
    match s {
        Seg::Text(t) => t,
        Seg::Byte(b) => escape_bytes(b),
        Seg::Trunc => seq!['\u{FFDD}'],
    }
}

/// How a whole segment sequence renders as text.
pub open spec fn mixed_chars(segs: Seq<Seg>) -> Seq<char>
    decreases segs.len(),
{
    if segs.len() == 0 {
        Seq::empty()
    } else {
        seg_chars(segs[0]) + mixed_chars(segs.drop_first())
    }
}

/// The reversal of a text by extended grapheme clusters.  This is the
/// result of walking the text's grapheme clusters backwards; it is a
/// function of the characters alone.
pub uninterp spec fn rev_graphemes(s: Seq<char>) -> Seq<char>;

/// A single segment reversed in place: text by grapheme clusters, raw
/// bytes byte-wise, the truncation marker unchanged.
pub open spec fn seg_rev(s: Seg) -> Seg {
    match s {
        Seg::Text(t) => Seg::Text(rev_graphemes(t)),
        Seg::Byte(b) => Seg::Byte(b.reverse()),
        Seg::Trunc => Seg::Trunc,
    }
}

/// A whole segment sequence reversed: segment order reversed and each
/// segment reversed internally.
pub open spec fn rev_segs(segs: Seq<Seg>) -> Seq<Seg> {
    segs.map_values(|s: Seg| seg_rev(s)).reverse()
}

/// The index up to which the UTF-8 validator accepts a byte sequence
/// that is not valid as a whole: what `Utf8Error::valid_up_to` reports.
pub uninterp spec fn utf8_valid_up_to(b: Seq<u8>) -> int;

/// The length of the invalid sequence after the longest valid prefix of
/// a byte sequence that is not valid as a whole: what
/// `Utf8Error::error_len` reports, with zero standing for an input that
/// instead ended inside a multi-byte sequence.
pub uninterp spec fn utf8_invalid_len(b: Seq<u8>) -> int;

/// How arbitrary bytes split into segments: the longest valid prefix as
/// one text run, then one raw run over the first invalid sequence, and
/// so on; a tail cut inside a multi-byte sequence becomes a raw run
/// with the truncation marker after it.  Where the validator's reported
/// split would fall outside the input — which it never does — the whole
/// input counts as one raw run, so the segments stand for the input
/// bytes in every branch.
pub open spec fn spec_from_bytes(b: Seq<u8>) -> Seq<Seg>
    decreases b.len(),
{
    if valid_utf8(b) {
        seq![Seg::Text(decode_utf8(b))]
    } else {
        let v = utf8_valid_up_to(b);
        let e = utf8_invalid_len(b);
        if 0 <= v <= b.len() && valid_utf8(b.take(v)) {
            let head: Seq<Seg> = if v > 0 {
                seq![Seg::Text(decode_utf8(b.take(v)))]
            } else {
                Seq::empty()
            };
            if 1 <= e && v + e <= b.len() {
                head + seq![Seg::Byte(b.subrange(v, v + e))] + spec_from_bytes(b.skip(v + e))
            } else if e == 0 && v < b.len() {
                head + seq![Seg::Byte(b.skip(v)), Seg::Trunc]
            } else {
                seq![Seg::Byte(b)]
            }
        } else {
            seq![Seg::Byte(b)]
        }
    }
}

/// What `str::from_utf8` reports about a byte slice: the longest valid
/// prefix as text, then either nothing, an invalid sequence of a known
/// length, or a truncated trailing sequence.
enum Utf8Chunk {
    Whole(String),
    Invalid(String, usize, usize),
    Truncated(String, usize),
}

/// Relies on `std::str::from_utf8`: on failure, `Utf8Error::valid_up_to`
/// is the length of the longest prefix that is valid UTF-8, and
/// `Utf8Error::error_len` the length of the invalid sequence after it,
/// absent when the input instead ended inside a multi-byte sequence.
#[verifier::external_body]
fn utf8_prefix(b: &[u8]) -> (r: Utf8Chunk)
    ensures
        match r {
            Utf8Chunk::Whole(text) => encode_utf8(text@) == b@,
            Utf8Chunk::Invalid(text, v, e) => {
                &&& !valid_utf8(b@)
                &&& v == utf8_valid_up_to(b@)
                &&& e == utf8_invalid_len(b@)
                &&& encode_utf8(text@) == b@.subrange(0, v as int)
                &&& v + e <= b@.len()
                &&& 1 <= e
            },
            Utf8Chunk::Truncated(text, v) => {
                &&& !valid_utf8(b@)
                &&& v == utf8_valid_up_to(b@)
                &&& utf8_invalid_len(b@) == 0
                &&& encode_utf8(text@) == b@.subrange(0, v as int)
                &&& v < b@.len()
            },
        },
{
    match std::str::from_utf8(b) {
        Ok(s) => Utf8Chunk::Whole(s.to_string()),
        Err(err) => {
            let v = err.valid_up_to();
            let text = std::str::from_utf8(&b[..v]).unwrap().to_string();
            match err.error_len() {
                Some(e) => Utf8Chunk::Invalid(text, v, e),
                None => Utf8Chunk::Truncated(text, v),
            }
        },
    }
}

/// Relies on `unicode_segmentation::UnicodeSegmentation::graphemes`: the
/// walk over extended grapheme clusters, taken backwards and collected,
/// depends on the characters alone.
#[verifier::external_body]
fn reverse_graphemes(s: &str) -> (r: String)
    ensures
        r@ == rev_graphemes(s@),
{
    unicode_segmentation::UnicodeSegmentation::graphemes(s, true).rev().collect()
}

/// Relies on `String::push`: appends one character.
#[verifier::external_body]
pub(crate) fn push_char(s: &mut String, c: char)
    ensures
        final(s)@ == old(s)@.push(c),
{
    s.push(c);
}

proof fn lemma_mixed_bytes_push(segs: Seq<Seg>, s: Seg)
    ensures
        mixed_bytes(segs.push(s)) == mixed_bytes(segs) + seg_bytes(s),
    decreases segs.len(),
{
    assert(mixed_bytes(Seq::<Seg>::empty()) == Seq::<u8>::empty());
    if segs.len() == 0 {
        assert(segs.push(s).drop_first() =~= Seq::<Seg>::empty());
        assert(segs.push(s)[0] == s);
        assert(mixed_bytes(segs.push(s)) =~= mixed_bytes(segs) + seg_bytes(s));
    } else {
        assert(segs.push(s).drop_first() =~= segs.drop_first().push(s));
        lemma_mixed_bytes_push(segs.drop_first(), s);
        assert(segs.push(s)[0] == segs[0]);
        assert(mixed_bytes(segs.push(s)) =~= mixed_bytes(segs) + seg_bytes(s));
    }
}

proof fn lemma_mixed_chars_push(segs: Seq<Seg>, s: Seg)
    ensures
        mixed_chars(segs.push(s)) == mixed_chars(segs) + seg_chars(s),
    decreases segs.len(),
{
    assert(mixed_chars(Seq::<Seg>::empty()) == Seq::<char>::empty());
    if segs.len() == 0 {
        assert(segs.push(s).drop_first() =~= Seq::<Seg>::empty());
        assert(segs.push(s)[0] == s);
        assert(mixed_chars(segs.push(s)) =~= mixed_chars(segs) + seg_chars(s));
    } else {
        assert(segs.push(s).drop_first() =~= segs.drop_first().push(s));
        lemma_mixed_chars_push(segs.drop_first(), s);
        assert(segs.push(s)[0] == segs[0]);
        assert(mixed_chars(segs.push(s)) =~= mixed_chars(segs) + seg_chars(s));
    }
}

proof fn lemma_mixed_bytes_concat(s1: Seq<Seg>, s2: Seq<Seg>)
    ensures
        mixed_bytes(s1 + s2) == mixed_bytes(s1) + mixed_bytes(s2),
    decreases s1.len(),
{
    assert(mixed_bytes(Seq::<Seg>::empty()) == Seq::<u8>::empty());
    if s1.len() == 0 {
        assert(s1 + s2 =~= s2);
        assert(mixed_bytes(s1 + s2) =~= mixed_bytes(s1) + mixed_bytes(s2));
    } else {
        assert((s1 + s2).drop_first() =~= s1.drop_first() + s2);
        lemma_mixed_bytes_concat(s1.drop_first(), s2);
        assert((s1 + s2)[0] == s1[0]);
        assert(mixed_bytes(s1 + s2) =~= mixed_bytes(s1) + mixed_bytes(s2));
    }
}

/// The segments a byte sequence splits into stand for exactly those
/// bytes: rendering them back as bytes is the identity, whatever the
/// input held.
pub proof fn lemma_from_bytes_round_trip(b: Seq<u8>)
    ensures
        mixed_bytes(spec_from_bytes(b)) == b,
    decreases b.len(),
{
    assert(mixed_bytes(Seq::<Seg>::empty()) == Seq::<u8>::empty());
    if valid_utf8(b) {
        decode_utf8_encode_utf8(b);
        assert(seq![Seg::Text(decode_utf8(b))].drop_first() =~= Seq::<Seg>::empty());
        assert(mixed_bytes(spec_from_bytes(b)) =~= b);
    } else {
        let v = utf8_valid_up_to(b);
        let e = utf8_invalid_len(b);
        if 0 <= v <= b.len() && valid_utf8(b.take(v)) {
            let head: Seq<Seg> = if v > 0 {
                seq![Seg::Text(decode_utf8(b.take(v)))]
            } else {
                Seq::empty()
            };
            decode_utf8_encode_utf8(b.take(v));
            assert(mixed_bytes(head) =~= b.take(v)) by {
                if v > 0 {
                    assert(head.drop_first() =~= Seq::<Seg>::empty());
                } else {
                    assert(b.take(0) =~= Seq::<u8>::empty());
                }
            }
            if 1 <= e && v + e <= b.len() {
                let mid = seq![Seg::Byte(b.subrange(v, v + e))];
                assert(mid.drop_first() =~= Seq::<Seg>::empty());
                assert(mixed_bytes(mid) =~= b.subrange(v, v + e));
                lemma_from_bytes_round_trip(b.skip(v + e));
                lemma_mixed_bytes_concat(head + mid, spec_from_bytes(b.skip(v + e)));
                lemma_mixed_bytes_concat(head, mid);
                assert(mixed_bytes(spec_from_bytes(b)) =~= b);
            } else if e == 0 && v < b.len() {
                let tail = seq![Seg::Byte(b.skip(v)), Seg::Trunc];
                assert(tail.drop_first() =~= seq![Seg::Trunc]);
                assert(tail.drop_first().drop_first() =~= Seq::<Seg>::empty());
                assert(mixed_bytes(tail.drop_first()) =~= Seq::<u8>::empty());
                assert(mixed_bytes(tail) =~= b.skip(v));
                lemma_mixed_bytes_concat(head, tail);
                assert(mixed_bytes(spec_from_bytes(b)) =~= b);
            } else {
                assert(seq![Seg::Byte(b)].drop_first() =~= Seq::<Seg>::empty());
                assert(mixed_bytes(spec_from_bytes(b)) =~= b);
            }
        } else {
            assert(seq![Seg::Byte(b)].drop_first() =~= Seq::<Seg>::empty());
            assert(mixed_bytes(spec_from_bytes(b)) =~= b);
        }
    }
}

proof fn lemma_escape_bytes_push(b: Seq<u8>, x: u8)
    ensures
        escape_bytes(b.push(x)) == escape_bytes(b) + escape_byte(x),
    decreases b.len(),
{
    assert(escape_bytes(Seq::<u8>::empty()) == Seq::<char>::empty());
    if b.len() == 0 {
        assert(b.push(x).drop_first() =~= Seq::<u8>::empty());
        assert(b.push(x)[0] == x);
        assert(escape_bytes(b.push(x)) =~= escape_bytes(b) + escape_byte(x));
    } else {
        assert(b.push(x).drop_first() =~= b.drop_first().push(x));
        lemma_escape_bytes_push(b.drop_first(), x);
        assert(b.push(x)[0] == b[0]);
        assert(escape_bytes(b.push(x)) =~= escape_bytes(b) + escape_byte(x));
    }
}

impl MixedString {
    /// Splits arbitrary bytes into the longest valid UTF-8 runs and the
    /// raw runs between them; a truncated trailing sequence is kept as a
    /// raw run followed by the truncation marker.  Total over all
    /// inputs, and the segments together stand for exactly the input
    /// bytes.
    pub fn from_bytes(input: &[u8]) -> (r: Self)
        ensures
            r@ == spec_from_bytes(input@),
            mixed_bytes(r@) == input@,
    {
        let mut data: Vec<Mixed> = Vec::new();
        let mut i: usize = 0;
        proof {
            assert(input@.skip(0) =~= input@);
            assert(data.deep_view() + spec_from_bytes(input@) =~= spec_from_bytes(input@));
        }
        loop
            invariant_except_break
                spec_from_bytes(input@) == data.deep_view() + spec_from_bytes(
                    input@.skip(i as int),
                ),
            invariant
                i <= input@.len(),
            ensures
                data.deep_view() == spec_from_bytes(input@),
            decreases input@.len() - i,
        {
            let rest = slice_subrange(input, i, input.len());
            proof {
                assert(rest@ =~= input@.skip(i as int));
            }
            let ghost rem = input@.skip(i as int);
            let ghost prev = data.deep_view();
            match utf8_prefix(rest) {
                Utf8Chunk::Whole(text) => {
                    let ghost tv = text@;
                    proof {
                        encode_utf8_valid_utf8(tv);
                        encode_utf8_decode_utf8(tv);
                        assert(spec_from_bytes(rem) =~= seq![Seg::Text(tv)]);
                    }
                    data.push(Mixed::Text(text));
                    proof {
                        assert(data.deep_view() =~= prev.push(Seg::Text(tv)));
                        assert(data.deep_view() =~= prev + spec_from_bytes(rem));
                    }
                    break;
                },
                Utf8Chunk::Invalid(text, v, e) => {
                    let ghost tv = text@;
                    let ghost v_ = v as int;
                    let ghost e_ = e as int;
                    proof {
                        assert(rem.subrange(0, v_) =~= rem.take(v_));
                        encode_utf8_valid_utf8(tv);
                        encode_utf8_decode_utf8(tv);
                        assert(valid_utf8(rem.take(v_)));
                        assert(decode_utf8(rem.take(v_)) == tv);
                    }
                    let ghost head: Seq<Seg> = if v_ > 0 {
                        seq![Seg::Text(tv)]
                    } else {
                        Seq::empty()
                    };
                    proof {
                        assert(spec_from_bytes(rem) == head + seq![
                            Seg::Byte(rem.subrange(v_, v_ + e_)),
                        ] + spec_from_bytes(rem.skip(v_ + e_)));
                    }
                    let bad = slice_to_vec(slice_subrange(rest, v, v + e));
                    let ghost bv = bad@;
                    if v > 0 {
                        data.push(Mixed::Text(text));
                        proof {
                            assert(data.deep_view() =~= prev.push(Seg::Text(tv)));
                        }
                    }
                    data.push(Mixed::Byte(bad));
                    proof {
                        assert(data.deep_view() =~= prev + head + seq![
                            Seg::Byte(rem.subrange(v_, v_ + e_)),
                        ]);
                        assert(input@.skip(i + v + e) =~= rem.skip(v_ + e_));
                        assert(data.deep_view() + spec_from_bytes(input@.skip(i + v + e))
                            =~= prev + spec_from_bytes(rem));
                    }
                    i = i + v + e;
                },
                Utf8Chunk::Truncated(text, v) => {
                    let ghost tv = text@;
                    let ghost v_ = v as int;
                    proof {
                        assert(rem.subrange(0, v_) =~= rem.take(v_));
                        encode_utf8_valid_utf8(tv);
                        encode_utf8_decode_utf8(tv);
                        assert(valid_utf8(rem.take(v_)));
                        assert(decode_utf8(rem.take(v_)) == tv);
                    }
                    let ghost head: Seq<Seg> = if v_ > 0 {
                        seq![Seg::Text(tv)]
                    } else {
                        Seq::empty()
                    };
                    proof {
                        assert(spec_from_bytes(rem) == head + seq![
                            Seg::Byte(rem.skip(v_)),
                            Seg::Trunc,
                        ]);
                    }
                    let tail = slice_to_vec(slice_subrange(rest, v, rest.len()));
                    let ghost lv = tail@;
                    proof {
                        assert(lv =~= rem.skip(v_));
                    }
                    if v > 0 {
                        data.push(Mixed::Text(text));
                        proof {
                            assert(data.deep_view() =~= prev.push(Seg::Text(tv)));
                        }
                    }
                    data.push(Mixed::Byte(tail));
                    data.push(Mixed::UnexpectedEOF);
                    proof {
                        assert(data.deep_view() =~= prev + head + seq![
                            Seg::Byte(rem.skip(v_)),
                            Seg::Trunc,
                        ]);
                        assert(data.deep_view() =~= prev + spec_from_bytes(rem));
                    }
                    break;
                },
            }
        }
        proof {
            lemma_from_bytes_round_trip(input@);
        }
        Self { data }
    }

    /// Wraps an already valid string as a single text segment.
    pub fn from_string(s: String) -> (r: Self)
        ensures
            r@ == seq![Seg::Text(s@)],
    {
        let ghost chars = s@;
        let mut data: Vec<Mixed> = Vec::new();
        data.push(Mixed::Text(s));
        proof {
            assert(data.deep_view() =~= seq![Seg::Text(chars)]);
        }
        Self { data }
    }

    /// Renders the path as text: text segments as themselves, each raw
    /// byte as a backslash-u escape, the truncation marker as U+FFDD.
    #[allow(clippy::inherent_to_string)]
    pub fn to_string(&self) -> (r: String)
        ensures
            r@ == mixed_chars(self@),
    {
        let mut res = String::new();
        let n = self.data.len();
        let mut i: usize = 0;
        while i < n
            invariant
                n == self.data.len(),
                i <= n,
                res@ == mixed_chars(self@.subrange(0, i as int)),
            decreases n - i,
        {
            let ghost prev = res@;
            match &self.data[i] {
                Mixed::Text(s) => {
                    proof {
                        assert(self@[i as int] == Seg::Text(s@));
                    }
                    res.append(s.as_str());
                },
                Mixed::Byte(bytes) => {
                    proof {
                        assert(self@[i as int] == Seg::Byte(bytes@));
                    }
                    let m = bytes.len();
                    let mut j: usize = 0;
                    while j < m
                        invariant
                            m == bytes.len(),
                            j <= m,
                            res@ == prev + escape_bytes(bytes@.subrange(0, j as int)),
                        decreases m - j,
                    {
                        let b = bytes[j];
                        let ghost sofar = res@;
                        push_char(&mut res, '\\');
                        push_char(&mut res, 'u');
                        push_char(&mut res, '{');
                        push_char(&mut res, hex_digit_of(b / 16));
                        push_char(&mut res, hex_digit_of(b % 16));
                        push_char(&mut res, '}');
                        proof {
                            lemma_escape_bytes_push(bytes@.subrange(0, j as int), b);
                            assert(bytes@.subrange(0, j as int).push(b)
                                =~= bytes@.subrange(0, j + 1));
                            assert(res@ =~= sofar + escape_byte(b));
                            assert(res@ =~= prev + escape_bytes(bytes@.subrange(0, j + 1)));
                        }
                        j = j + 1;
                    }
                    proof {
                        assert(bytes@.subrange(0, m as int) =~= bytes@);
                    }
                },
                Mixed::UnexpectedEOF => {
                    proof {
                        assert(self@[i as int] == Seg::Trunc);
                    }
                    push_char(&mut res, '\u{FFDD}');
                    proof {
                        assert(res@ =~= prev + seq!['\u{FFDD}']);
                    }
                },
            }
            proof {
                lemma_mixed_chars_push(self@.subrange(0, i as int), self@[i as int]);
                assert(self@.subrange(0, i as int).push(self@[i as int])
                    =~= self@.subrange(0, i + 1));
                assert(res@ =~= mixed_chars(self@.subrange(0, i + 1)));
            }
            i = i + 1;
        }
        proof {
            assert(self@.subrange(0, n as int) =~= self@);
        }
        res
    }

    /// Renders the original bytes: text segments contribute their UTF-8
    /// encoding, raw segments their bytes, the truncation marker
    /// nothing.
    pub fn to_bytes(&self) -> (r: Vec<u8>)
        ensures
            r@ == mixed_bytes(self@),
    {
        let mut res: Vec<u8> = Vec::new();
        let n = self.data.len();
        let mut i: usize = 0;
        while i < n
            invariant
                n == self.data.len(),
                i <= n,
                res@ == mixed_bytes(self@.subrange(0, i as int)),
            decreases n - i,
        {
            match &self.data[i] {
                Mixed::Text(s) => {
                    proof {
                        assert(self@[i as int] == Seg::Text(s@));
                    }
                    let mut bs = s.as_str().as_bytes_vec();
                    res.append(&mut bs);
                },
                Mixed::Byte(bytes) => {
                    proof {
                        assert(self@[i as int] == Seg::Byte(bytes@));
                    }
                    res.extend_from_slice(bytes.as_slice());
                },
                Mixed::UnexpectedEOF => {
                    proof {
                        assert(self@[i as int] == Seg::Trunc);
                    }
                },
            }
            proof {
                lemma_mixed_bytes_push(self@.subrange(0, i as int), self@[i as int]);
                assert(self@.subrange(0, i as int).push(self@[i as int])
                    =~= self@.subrange(0, i + 1));
                assert(res@ =~= mixed_bytes(self@.subrange(0, i + 1)));
            }
            i = i + 1;
        }
        proof {
            assert(self@.subrange(0, n as int) =~= self@);
        }
        res
    }

    /// Reverses the path: segment order is reversed, text segments are
    /// reversed by grapheme cluster, raw segments byte-wise, and the
    /// truncation marker is kept in its reversed position.
    pub fn reverse(&mut self)
        ensures
            final(self)@ == rev_segs(old(self)@),
    {
        let ghost orig = old(self)@;
        let mut out: Vec<Mixed> = Vec::new();
        loop
            invariant
                self.data@.len() <= orig.len(),
                self.data.deep_view() == orig.subrange(0, self.data@.len() as int),
                out.deep_view() == rev_segs(
                    orig.subrange(self.data@.len() as int, orig.len() as int),
                ),
            ensures
                out.deep_view() == rev_segs(orig),
            decreases self.data@.len(),
        {
            let ghost k = self.data@.len() as int;
            let ghost pre_shallow = self.data@;
            let ghost pre_deep = self.data.deep_view();
            let popped = match self.data.pop() {
                Some(seg) => seg,
                None => {
                    proof {
                        assert(orig.subrange(0, 0) =~= Seq::<Seg>::empty());
                        assert(orig.subrange(0, orig.len() as int) =~= orig);
                    }
                    break;
                },
            };
            proof {
                assert(pre_deep[k - 1] == pre_shallow[k - 1].deep_view());
                assert(popped@ == orig[k - 1]);
                assert(self.data.deep_view() =~= orig.subrange(0, k - 1));
            }
            let rev = reverse_seg(popped);
            let ghost out_prev = out.deep_view();
            let ghost rv = rev@;
            out.push(rev);
            proof {
                let tail_prev = orig.subrange(k, orig.len() as int);
                let tail_now = orig.subrange(k - 1, orig.len() as int);
                assert(out.deep_view() =~= out_prev.push(rv));
                assert(rev_segs(tail_prev).push(seg_rev(orig[k - 1])) =~= rev_segs(tail_now));
                assert(out.deep_view() =~= rev_segs(tail_now));
            }
        }
        self.data = out;
    }
}

/// One segment reversed: text by grapheme cluster, bytes byte-wise.
fn reverse_seg(m: Mixed) -> (r: Mixed)
    ensures
        r@ == seg_rev(m@),
{
    match m {
        Mixed::Text(s) => Mixed::Text(reverse_graphemes(s.as_str())),
        Mixed::Byte(b) => Mixed::Byte(reverse_bytes(&b)),
        Mixed::UnexpectedEOF => Mixed::UnexpectedEOF,
    }
}

/// The lower-case hexadecimal digit for a value below sixteen.
pub(crate) fn hex_digit_of(n: u8) -> (c: char)
    requires
        n < 16,
    ensures
        c == hex_digit(n),
{
    match n {
        0 => '0',
        1 => '1',
        2 => '2',
        3 => '3',
        4 => '4',
        5 => '5',
        6 => '6',
        7 => '7',
        8 => '8',
        9 => '9',
        10 => 'a',
        11 => 'b',
        12 => 'c',
        13 => 'd',
        14 => 'e',
        _ => 'f',
    }
}

/// A fresh vector holding the bytes in reversed order.
fn reverse_bytes(b: &Vec<u8>) -> (r: Vec<u8>)
    ensures
        r@ == b@.reverse(),
{
    let n = b.len();
    let mut out: Vec<u8> = Vec::new();
    let mut j: usize = 0;
    while j < n
        invariant
            n == b.len(),
            j <= n,
            out@ == b@.reverse().subrange(0, j as int),
        decreases n - j,
    {
        out.push(b[n - 1 - j]);
        proof {
            assert(out@ =~= b@.reverse().subrange(0, j + 1));
        }
        j = j + 1;
    }
    proof {
        assert(b@.reverse().subrange(0, n as int) =~= b@.reverse());
    }
    out
}

/// Reversing a path built from a valid string and rendering it as text
/// gives exactly the string reversed by grapheme clusters.
pub proof fn lemma_reverse_renders_by_graphemes(s: Seq<char>)
    ensures
        mixed_chars(rev_segs(seq![Seg::Text(s)])) == rev_graphemes(s),
{
    let segs = seq![Seg::Text(s)];
    let mapped = segs.map_values(|x: Seg| seg_rev(x));
    assert(mapped =~= seq![Seg::Text(rev_graphemes(s))]);
    assert(mapped.reverse() =~= seq![Seg::Text(rev_graphemes(s))]);
    let single = seq![Seg::Text(rev_graphemes(s))];
    assert(mixed_chars(Seq::<Seg>::empty()) == Seq::<char>::empty());
    assert(single.drop_first() =~= Seq::<Seg>::empty());
    assert(mixed_chars(single) =~= rev_graphemes(s));
    assert(mixed_chars(rev_segs(segs)) == mixed_chars(single));
}

/// The same law for a path decoded from the bytes of a valid string:
/// decoding splits it into one text segment, so reversing and rendering
/// again gives the byte sequence's characters reversed by grapheme
/// clusters.
pub proof fn lemma_reverse_from_bytes_by_graphemes(b: Seq<u8>)
    requires
        valid_utf8(b),
    ensures
        mixed_chars(rev_segs(spec_from_bytes(b))) == rev_graphemes(decode_utf8(b)),
{
    lemma_reverse_renders_by_graphemes(decode_utf8(b));
}

/// Segment-wise comparison of two segments.
fn seg_eq(a: &Mixed, b: &Mixed) -> (r: bool)
    ensures
        r == (a@ == b@),
{
    match (a, b) {
        (Mixed::Text(x), Mixed::Text(y)) => x.eq(y),
        (Mixed::Byte(x), Mixed::Byte(y)) => bytes_eq(x, y),
        (Mixed::UnexpectedEOF, Mixed::UnexpectedEOF) => true,
        _ => false,
    }
}

/// Element-wise comparison of two byte vectors.
fn bytes_eq(a: &Vec<u8>, b: &Vec<u8>) -> (r: bool)
    ensures
        r == (a@ == b@),
{
    let n = a.len();
    if n != b.len() {
        return false;
    }
    let mut i: usize = 0;
    while i < n
        invariant
            n == a.len(),
            n == b.len(),
            i <= n,
            forall|k: int| 0 <= k < i ==> a@[k] == b@[k],
        decreases n - i,
    {
        if a[i] != b[i] {
            return false;
        }
        i = i + 1;
    }
    proof {
        assert(a@ =~= b@);
    }
    true
}

impl PartialEq for MixedString {
    /// Equality is segment-wise: same kinds, same text, same bytes.
    fn eq(&self, other: &Self) -> (r: bool) {
        let n = self.data.len();
        if n != other.data.len() {
            proof {
                assert(self@.len() == self.data@.len());
                assert(other@.len() == other.data@.len());
            }
            return false;
        }
        let mut i: usize = 0;
        while i < n
            invariant
                n == self.data.len(),
                n == other.data.len(),
                i <= n,
                forall|k: int| 0 <= k < i ==> self@[k] == other@[k],
            decreases n - i,
        {
            let same = seg_eq(&self.data[i], &other.data[i]);
            proof {
                assert(self@[i as int] == self.data@[i as int].deep_view());
                assert(other@[i as int] == other.data@[i as int].deep_view());
            }
            if !same {
                return false;
            }
            i = i + 1;
        }
        proof {
            assert(self@ =~= other@);
        }
        true
    }
}

impl vstd::std_specs::cmp::PartialEqSpecImpl for MixedString {
    open spec fn obeys_eq_spec() -> bool {
        true
    }

    open spec fn eq_spec(&self, other: &MixedString) -> bool {
        self@ == other@
    }
}

impl MixedString {
    /// A fresh path holding the same segments, usable in contracts.
    pub fn duplicate(&self) -> (r: Self)
        ensures
            r@ == self@,
    {
        let n = self.data.len();
        let mut data: Vec<Mixed> = Vec::new();
        let mut i: usize = 0;
        while i < n
            invariant
                n == self.data.len(),
                i <= n,
                data.deep_view() == self@.subrange(0, i as int),
            decreases n - i,
        {
            let ghost prev = data.deep_view();
            let seg = clone_seg(&self.data[i]);
            let ghost sv = seg@;
            data.push(seg);
            proof {
                assert(self@[i as int] == self.data@[i as int].deep_view());
                assert(data.deep_view() =~= prev.push(sv));
                assert(data.deep_view() =~= self@.subrange(0, i + 1));
            }
            i = i + 1;
        }
        proof {
            assert(self@.subrange(0, n as int) =~= self@);
        }
        Self { data }
    }
}

/// A fresh segment holding the same contents.
fn clone_seg(m: &Mixed) -> (r: Mixed)
    ensures
        r@ == m@,
{
    match m {
        Mixed::Text(s) => Mixed::Text(s.clone()),
        Mixed::Byte(b) => Mixed::Byte(clone_bytes(b)),
        Mixed::UnexpectedEOF => Mixed::UnexpectedEOF,
    }
}

/// A fresh vector holding the same bytes.
fn clone_bytes(b: &Vec<u8>) -> (r: Vec<u8>)
    ensures
        r@ == b@,
{
    let mut out: Vec<u8> = Vec::new();
    let n = b.len();
    let mut i: usize = 0;
    while i < n
        invariant
            n == b.len(),
            i <= n,
            out@ == b@.subrange(0, i as int),
        decreases n - i,
    {
        out.push(b[i]);
        proof {
            assert(out@ =~= b@.subrange(0, i + 1));
        }
        i = i + 1;
    }
    proof {
        assert(b@.subrange(0, n as int) =~= b@);
    }
    out
}

} // verus!
