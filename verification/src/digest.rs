//! The content hash of an iPXE OS definition: a fixed framing of its
//! template name, parameters and artifacts, digested with SHA-256 and written
//! as lowercase hexadecimal.
use vstd::prelude::*;
use vstd::utf8::encode_utf8;
use sha2::Digest;
use crate::model::{copy_artifacts, copy_parameters, IpxeOs, IpxeOsArtifact, IpxeOsParameter};
use crate::text::{chars_of, string_of};

verus! {

// ---------------------------------------------------------------------
// SHA-256
// ---------------------------------------------------------------------

/// The SHA-256 digest of a byte sequence.
pub uninterp spec fn sha256_digest(data: Seq<u8>) -> Seq<u8>;

/// Calls `sha2::Sha256::digest`. Trusted to return the SHA-256 digest of
/// `data`, which the name `sha256_digest` stands for, and to return 32
/// bytes (`Sha256`'s output size).
#[verifier::external_body]
fn sha256(data: &[u8]) -> (d: Vec<u8>)
    ensures
        d@ == sha256_digest(data@),
        d@.len() == 32,
{
    sha2::Sha256::digest(data).to_vec()
}

// ---------------------------------------------------------------------
// Hexadecimal
// ---------------------------------------------------------------------

/// The lowercase hexadecimal digit for `n` (below 16).
pub open spec fn hex_digit(n: int) -> char {
    if n < 10 {
        (48 + n) as char
    } else {
        (87 + n) as char
    }
}

/// Each byte as two lowercase hexadecimal digits, high nibble first.
pub open spec fn lower_hex(bytes: Seq<u8>) -> Seq<char>
    decreases bytes.len(),
{
    if bytes.len() == 0 {
        Seq::empty()
    } else {
        let b = bytes.last();
        lower_hex(bytes.drop_last()) + seq![hex_digit(b as int / 16), hex_digit(b as int % 16)]
    }
}

/// `c` is one of `0`-`9` or `a`-`f`.
pub open spec fn is_lower_hex_digit(c: char) -> bool {
    ('0' <= c && c <= '9') || ('a' <= c && c <= 'f')
}

/// The hexadecimal text of `bytes` has two characters per byte, each a
/// lowercase hexadecimal digit.
pub proof fn lemma_lower_hex_shape(bytes: Seq<u8>)
    ensures
        lower_hex(bytes).len() == 2 * bytes.len(),
        forall|i: int| 0 <= i < lower_hex(bytes).len() ==> is_lower_hex_digit(#[trigger] lower_hex(bytes)[i]),
    decreases bytes.len(),
{
    if bytes.len() > 0 {
        lemma_lower_hex_shape(bytes.drop_last());
        let b = bytes.last();
        let hi = b as int / 16;
        let lo = b as int % 16;
        assert(is_lower_hex_digit(hex_digit(hi))) by {
            assert(0 <= hi < 16);
        }
        assert(is_lower_hex_digit(hex_digit(lo))) by {
            assert(0 <= lo < 16);
        }
        let prev = lower_hex(bytes.drop_last());
        let t = lower_hex(bytes);
        assert forall|i: int| 0 <= i < t.len() implies is_lower_hex_digit(#[trigger] t[i]) by {
            if i < prev.len() {
                assert(t[i] == prev[i]);
            }
        }
    }
}

/// The sixteen lowercase hexadecimal digits, in order of value.
pub open spec fn hex_alphabet() -> Seq<char> {
    seq!['0', '1', '2', '3', '4', '5', '6', '7', '8', '9', 'a', 'b', 'c', 'd', 'e', 'f']
}

proof fn lemma_hex_digit_alphabet(n: int)
    requires
        0 <= n < 16,
    ensures
        hex_digit(n) == hex_alphabet()[n],
{
    let h = hex_alphabet();
    assert(h[0] == '0' && h[1] == '1' && h[2] == '2' && h[3] == '3' && h[4] == '4' && h[5] == '5');
    assert(h[6] == '6' && h[7] == '7' && h[8] == '8' && h[9] == '9' && h[10] == 'a');
    assert(h[11] == 'b' && h[12] == 'c' && h[13] == 'd' && h[14] == 'e' && h[15] == 'f');
}

/// Bytes are written as hexadecimal one after another: nothing for no
/// bytes, and for one more byte the digit of its high nibble followed by the
/// digit of its low nibble.
pub proof fn lemma_lower_hex_appends_nibbles(a: Seq<u8>, b: u8)
    ensures
        lower_hex(Seq::empty()) == Seq::<char>::empty(),
        lower_hex(a.push(b)) == lower_hex(a) + seq![
            hex_alphabet()[b as int / 16],
            hex_alphabet()[b as int % 16],
        ],
{
    assert(a.push(b).drop_last() =~= a);
    lemma_hex_digit_alphabet(b as int / 16);
    lemma_hex_digit_alphabet(b as int % 16);
}

fn hex_digit_char(n: u8) -> (c: char)
    requires
        n < 16,
    ensures
        c == hex_digit(n as int),
{
    if n < 10 {
        (48u8 + n) as char
    } else {
        (87u8 + n) as char
    }
}

/// Writes a digest as lowercase hexadecimal.
pub fn digest_hex(digest: &[u8]) -> (s: String)
    ensures
        s@ == lower_hex(digest@),
        s@.len() == 2 * digest@.len(),
        forall|i: int| 0 <= i < s@.len() ==> is_lower_hex_digit(#[trigger] s@[i]),
{
    proof {
        lemma_lower_hex_shape(digest@);
    }
    let mut out: Vec<char> = Vec::new();
    let mut i: usize = 0;
    while i < digest.len()
        invariant
            i <= digest.len(),
            out@ == lower_hex(digest@.take(i as int)),
        decreases digest.len() - i,
    {
        let b = digest[i];
        out.push(hex_digit_char(b / 16));
        out.push(hex_digit_char(b % 16));
        assert(digest@.take(i + 1).drop_last() == digest@.take(i as int));
        assert(digest@.take(i + 1).last() == b);
        i = i + 1;
    }
    assert(digest@.take(digest.len() as int) == digest@);
    string_of(&out)
}

// ---------------------------------------------------------------------
// Ordering by name
// ---------------------------------------------------------------------

/// `a` comes before `b`: lexicographic order of code points, a proper
/// prefix first (the order of `String`'s `Ord`, which compares UTF-8 bytes).
pub open spec fn name_before(a: Seq<char>, b: Seq<char>) -> bool
    decreases a.len(),
{
    if b.len() == 0 {
        false
    } else if a.len() == 0 {
        true
    } else if a[0] != b[0] {
        a[0] < b[0]
    } else {
        name_before(a.drop_first(), b.drop_first())
    }
}

fn chars_before(a: &Vec<char>, b: &Vec<char>) -> (r: bool)
    ensures
        r == name_before(a@, b@),
{
    let mut i: usize = 0;
    assert(a@.skip(0) == a@);
    assert(b@.skip(0) == b@);
    while i < a.len() && i < b.len() && a[i] == b[i]
        invariant
            i <= a.len(),
            i <= b.len(),
            name_before(a@, b@) == name_before(a@.skip(i as int), b@.skip(i as int)),
        decreases a.len() - i,
    {
        assert(a@.skip(i as int).drop_first() == a@.skip(i + 1));
        assert(b@.skip(i as int).drop_first() == b@.skip(i + 1));
        i = i + 1;
    }
    if i == b.len() {
        assert(b@.skip(i as int).len() == 0);
        false
    } else if i == a.len() {
        assert(a@.skip(i as int).len() == 0);
        true
    } else {
        assert(a@.skip(i as int)[0] == a@[i as int]);
        assert(b@.skip(i as int)[0] == b@[i as int]);
        a[i] < b[i]
    }
}

/// Something with a name to sort by.
pub trait Named {
    spec fn name_of(&self) -> Seq<char>;

    fn name_ref(&self) -> (r: &String)
        ensures
            r@ == self.name_of(),
    ;
}

impl Named for IpxeOsParameter {
    open spec fn name_of(&self) -> Seq<char> {
        self.name@
    }

    fn name_ref(&self) -> (r: &String) {
        &self.name
    }
}

impl Named for IpxeOsArtifact {
    open spec fn name_of(&self) -> Seq<char> {
        self.name@
    }

    fn name_ref(&self) -> (r: &String) {
        &self.name
    }
}

/// `x` placed into `s` after every element whose name does not come after
/// its own.
pub open spec fn insert_by_name<T: Named>(s: Seq<T>, x: T) -> Seq<T>
    decreases s.len(),
{
    if s.len() == 0 || !name_before(x.name_of(), s.last().name_of()) {
        s.push(x)
    } else {
        insert_by_name(s.drop_last(), x).push(s.last())
    }
}

/// The stable sort of `s` by name: elements ordered by name, those with the
/// same name in their original order.
pub open spec fn sort_by_name<T: Named>(s: Seq<T>) -> Seq<T>
    decreases s.len(),
{
    if s.len() == 0 {
        s
    } else {
        insert_by_name(sort_by_name(s.drop_last()), s.last())
    }
}

proof fn lemma_insert_at<T: Named>(s: Seq<T>, x: T, j: int)
    requires
        0 <= j <= s.len(),
        forall|k: int| j <= k < s.len() ==> name_before(x.name_of(), #[trigger] s[k].name_of()),
        j == 0 || !name_before(x.name_of(), s[j - 1].name_of()),
    ensures
        insert_by_name(s, x) == s.insert(j, x),
    decreases s.len() - j,
{
    if j == s.len() {
        assert(s.insert(j, x) =~= s.push(x));
    } else {
        let t = s.drop_last();
        assert(name_before(x.name_of(), s[s.len() - 1].name_of()));
        assert forall|k: int| j <= k < t.len() implies name_before(x.name_of(), #[trigger] t[k].name_of()) by {
            assert(t[k] == s[k]);
        }
        if j > 0 {
            assert(t[j - 1] == s[j - 1]);
        }
        lemma_insert_at(t, x, j);
        assert(t.insert(j, x).push(s.last()) =~= s.insert(j, x));
    }
}

fn insert_named<T: Named>(r: &mut Vec<T>, x: T)
    ensures
        final(r)@ == insert_by_name(old(r)@, x),
{
    let xn = chars_of(x.name_ref().as_str());
    let mut j: usize = r.len();
    loop
        invariant
            j <= r.len(),
            xn@ == x.name_of(),
            forall|k: int| j <= k < r.len() ==> name_before(x.name_of(), #[trigger] r@[k].name_of()),
        ensures
            j <= r.len(),
            forall|k: int| j <= k < r.len() ==> name_before(x.name_of(), #[trigger] r@[k].name_of()),
            j == 0 || !name_before(x.name_of(), r@[j - 1].name_of()),
        decreases j,
    {
        if j == 0 {
            break;
        }
        let yn = chars_of(r[j - 1].name_ref().as_str());
        if !chars_before(&xn, &yn) {
            break;
        }
        j = j - 1;
    }
    proof {
        lemma_insert_at(r@, x, j as int);
    }
    r.insert(j, x);
}

/// Sorts by name, keeping elements with the same name in their order.
pub fn stable_sort_by_name<T: Named>(v: Vec<T>) -> (r: Vec<T>)
    ensures
        r@ == sort_by_name(v@),
{
    let ghost s = v@;
    let n = v.len();
    assert(s.len() == n);
    let mut rest = v;
    let mut r: Vec<T> = Vec::new();
    let mut i: usize = 0;
    assert(s.take(0) =~= Seq::<T>::empty());
    assert(s.skip(0) == s);
    while rest.len() > 0
        invariant
            i <= s.len(),
            rest@ == s.skip(i as int),
            rest.len() == s.len() - i,
            s.len() <= usize::MAX,
            r@ == sort_by_name(s.take(i as int)),
        decreases rest.len(),
    {
        let x = rest.remove(0);
        assert(s.take(i + 1).drop_last() == s.take(i as int));
        assert(s.take(i + 1).last() == x);
        insert_named(&mut r, x);
        assert(s.skip(i as int).remove(0) == s.skip(i + 1));
        i = i + 1;
    }
    assert(s.take(i as int) == s);
    r
}


// ---------------------------------------------------------------------
// The hashed bytes
// ---------------------------------------------------------------------

/// The UTF-8 bytes of an optional string; nothing when it is absent.
pub open spec fn optional_utf8(o: Option<String>) -> Seq<u8> {
    match o {
        Some(s) => encode_utf8(s@),
        None => Seq::empty(),
    }
}

/// Each parameter's name then value, in UTF-8, one parameter after another.
pub open spec fn parameters_bytes(ps: Seq<IpxeOsParameter>) -> Seq<u8>
    decreases ps.len(),
{
    if ps.len() == 0 {
        Seq::empty()
    } else {
        let p = ps.last();
        parameters_bytes(ps.drop_last()) + encode_utf8(p.name@) + encode_utf8(p.value@)
    }
}

/// Each artifact's name, URL, and whichever of its checksum, auth type and
/// auth token are present, in UTF-8, one artifact after another. The cache
/// strategy and local URL do not take part.
pub open spec fn artifacts_bytes(arts: Seq<IpxeOsArtifact>) -> Seq<u8>
    decreases arts.len(),
{
    if arts.len() == 0 {
        Seq::empty()
    } else {
        let a = arts.last();
        artifacts_bytes(arts.drop_last()) + encode_utf8(a.name@) + encode_utf8(a.url@)
            + optional_utf8(a.sha) + optional_utf8(a.auth_type) + optional_utf8(a.auth_token)
    }
}

/// What is hashed of a definition: its template name, then its parameters
/// sorted by name, then its artifacts sorted by name.
pub open spec fn hash_input(os: IpxeOs) -> Seq<u8> {
    encode_utf8(os.ipxe_template_name@) + parameters_bytes(sort_by_name(os.parameters@))
        + artifacts_bytes(sort_by_name(os.artifacts@))
}

/// The hash of a definition: the SHA-256 digest of `hash_input`, in
/// lowercase hexadecimal.
pub open spec fn definition_hash(os: IpxeOs) -> Seq<char> {
    lower_hex(sha256_digest(hash_input(os)))
}

fn append_utf8(out: &mut Vec<u8>, s: &String)
    ensures
        final(out)@ == old(out)@ + encode_utf8(s@),
{
    let b = s.as_str().as_bytes();
    let mut k: usize = 0;
    while k < b.len()
        invariant
            k <= b.len(),
            b@ == encode_utf8(s@),
            out@ == old(out)@ + b@.take(k as int),
        decreases b.len() - k,
    {
        out.push(b[k]);
        k = k + 1;
        assert(b@.take(k as int) == b@.take(k - 1).push(b@[k - 1]));
    }
    assert(b@.take(b.len() as int) == b@);
}

fn append_optional_utf8(out: &mut Vec<u8>, o: &Option<String>)
    ensures
        final(out)@ == old(out)@ + optional_utf8(*o),
{
    match o {
        Some(s) => append_utf8(out, s),
        None => {
            assert(old(out)@ + Seq::<u8>::empty() == old(out)@);
        },
    }
}

/// The bytes that a definition's hash digests.
pub fn hash_input_bytes(os: &IpxeOs) -> (b: Vec<u8>)
    ensures
        b@ == hash_input(*os),
{
    let mut out: Vec<u8> = Vec::new();
    append_utf8(&mut out, &os.ipxe_template_name);
    let ghost head = out@;
    let params = stable_sort_by_name(copy_parameters(&os.parameters));
    let mut i: usize = 0;
    while i < params.len()
        invariant
            i <= params.len(),
            out@ == head + parameters_bytes(params@.take(i as int)),
        decreases params.len() - i,
    {
        append_utf8(&mut out, &params[i].name);
        append_utf8(&mut out, &params[i].value);
        assert(params@.take(i + 1).drop_last() == params@.take(i as int));
        i = i + 1;
    }
    assert(params@.take(params.len() as int) == params@);
    let ghost mid = out@;
    let arts = stable_sort_by_name(copy_artifacts(&os.artifacts));
    let mut j: usize = 0;
    while j < arts.len()
        invariant
            j <= arts.len(),
            out@ == mid + artifacts_bytes(arts@.take(j as int)),
        decreases arts.len() - j,
    {
        append_utf8(&mut out, &arts[j].name);
        append_utf8(&mut out, &arts[j].url);
        append_optional_utf8(&mut out, &arts[j].sha);
        append_optional_utf8(&mut out, &arts[j].auth_type);
        append_optional_utf8(&mut out, &arts[j].auth_token);
        assert(arts@.take(j + 1).drop_last() == arts@.take(j as int));
        j = j + 1;
    }
    assert(arts@.take(arts.len() as int) == arts@);
    out
}

/// The hash of a definition, as `definition_hash` describes it.
pub fn compute_definition_hash(os: &IpxeOs) -> (h: String)
    ensures
        h@ == definition_hash(*os),
        h@.len() == 64,
        forall|i: int| 0 <= i < h@.len() ==> is_lower_hex_digit(#[trigger] h@[i]),
{
    let input = hash_input_bytes(os);
    let d = sha256(input.as_slice());
    digest_hex(d.as_slice())
}

} // verus!
