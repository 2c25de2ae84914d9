//! The storage key scheme and the reading of backend answers.
//!
//! Originals live under `images/<identifier>`; resized variants under
//! `cache/<identifier>_<width-or-0>_<height-or-0>`.

use vstd::prelude::*;

verus! {

/// Prefix of the namespace that holds uploaded originals.
pub const IMAGE_FOLDER: &'static str = "images/";

/// Prefix of the namespace that holds resized variants.
pub const CACHE_FOLDER: &'static str = "cache/";

/// The status code of a successful backend answer.
pub const STATUS_OK: u16 = 200;

/// A write that the backend did not acknowledge.
#[derive(Clone, Copy, Debug, PartialEq, Eq, Structural)]
pub enum StorageError {
    WriteFailed,
}

/// A required setting that was not supplied.
#[derive(Clone, Copy, Debug, PartialEq, Eq, Structural)]
pub enum SettingsError {
    MissingBucket,
}

/// Where the backend is reached: bucket, region and credentials role.
#[derive(Debug)]
pub struct StorageSettings {
    pub role: String,
    pub bucket: String,
    pub region: String,
}

pub open spec fn digit_char(d: nat) -> char {
    if d == 0 {
        '0'
    } else if d == 1 {
        '1'
    } else if d == 2 {
        '2'
    } else if d == 3 {
        '3'
    } else if d == 4 {
        '4'
    } else if d == 5 {
        '5'
    } else if d == 6 {
        '6'
    } else if d == 7 {
        '7'
    } else if d == 8 {
        '8'
    } else {
        '9'
    }
}

/// The decimal digits of `n`, without leading zeros.
pub open spec fn decimal(n: nat) -> Seq<char>
    decreases n,
{
    if n < 10 {
        seq![digit_char(n)]
    } else {
        decimal(n / 10).push(digit_char(n % 10))
    }
}

pub open spec fn or_zero(side: Option<u32>) -> nat {
    match side {
        Some(v) => v as nat,
        None => 0,
    }
}

/// The key of an original (no side requested) or of a resized variant.
pub open spec fn storage_key(name: Seq<char>, width: Option<u32>, height: Option<u32>) -> Seq<char> {
    if width is Some || height is Some {
        CACHE_FOLDER@ + name + seq!['_'] + decimal(or_zero(width)) + seq!['_'] + decimal(
            or_zero(height),
        )
    } else {
        IMAGE_FOLDER@ + name
    }
}

/// The identifier that a listed key names: its text after the originals prefix, when non-empty.
pub open spec fn listed_name(key: Seq<char>) -> Option<Seq<char>> {
    let p = IMAGE_FOLDER@;
    if key.len() > p.len() && key.subrange(0, p.len() as int) == p {
        Some(key.subrange(p.len() as int, key.len() as int))
    } else {
        None
    }
}

/// The identifiers named by a listing of keys, in order.
pub open spec fn image_names(keys: Seq<Seq<char>>) -> Seq<Seq<char>>
    decreases keys.len(),
{
    if keys.len() == 0 {
        Seq::empty()
    } else {
        let rest = image_names(keys.drop_last());
        match listed_name(keys.last()) {
            Some(n) => rest.push(n),
            None => rest,
        }
    }
}

pub open spec fn texts(v: Seq<String>) -> Seq<Seq<char>> {
    v.map_values(|s: String| s@)
}

fn digit_text(d: u32) -> (r: &'static str)
    requires
        d < 10,
    ensures
        r@ == seq![digit_char(d as nat)],
{
    proof {
        reveal_strlit("0");
        reveal_strlit("1");
        reveal_strlit("2");
        reveal_strlit("3");
        reveal_strlit("4");
        reveal_strlit("5");
        reveal_strlit("6");
        reveal_strlit("7");
        reveal_strlit("8");
        reveal_strlit("9");
    }
    let r = if d == 0 {
        "0"
    } else if d == 1 {
        "1"
    } else if d == 2 {
        "2"
    } else if d == 3 {
        "3"
    } else if d == 4 {
        "4"
    } else if d == 5 {
        "5"
    } else if d == 6 {
        "6"
    } else if d == 7 {
        "7"
    } else if d == 8 {
        "8"
    } else {
        "9"
    };
    assert(r@ =~= seq![digit_char(d as nat)]);
    r
}

/// Renders `n` in decimal.
pub fn decimal_text(n: u32) -> (r: String)
    ensures
        r@ == decimal(n as nat),
    decreases n,
{
    if n < 10 {
        String::from_str(digit_text(n))
    } else {
        let mut s = decimal_text(n / 10);
        s.append(digit_text(n % 10));
        s
    }
}

/// The key under which `image_name` is stored: the original when neither side is given,
/// otherwise the resized variant for those sides.
pub fn object_key(image_name: &str, width: Option<u32>, height: Option<u32>) -> (r: String)
    ensures
        r@ == storage_key(image_name@, width, height),
{
    if width.is_some() || height.is_some() {
        let w = match width {
            Some(v) => v,
            None => 0,
        };
        let h = match height {
            Some(v) => v,
            None => 0,
        };
        let mut key = String::from_str(CACHE_FOLDER);
        key.append(image_name);
        key.append("_");
        key.append(decimal_text(w).as_str());
        key.append("_");
        key.append(decimal_text(h).as_str());
        proof {
            reveal_strlit("_");
        }
        assert(key@ =~= storage_key(image_name@, width, height));
        key
    } else {
        let mut key = String::from_str(IMAGE_FOLDER);
        key.append(image_name);
        key
    }
}

/// The rest of `s` after `prefix`, when `s` starts with it.
fn strip_prefix<'a>(s: &'a str, prefix: &str) -> (r: Option<&'a str>)
    ensures
        match r {
            Some(rest) => s@.len() >= prefix@.len() && s@.subrange(0, prefix@.len() as int)
                == prefix@ && rest@ == s@.subrange(prefix@.len() as int, s@.len() as int),
            None => !(s@.len() >= prefix@.len() && s@.subrange(0, prefix@.len() as int)
                == prefix@),
        },
{
    let n = s.unicode_len();
    let p = prefix.unicode_len();
    if n < p {
        return None;
    }
    let mut i: usize = 0;
    while i < p
        invariant
            n == s@.len(),
            p == prefix@.len(),
            p <= n,
            i <= p,
            forall|j: int| 0 <= j < i ==> s@[j] == prefix@[j],
        decreases p - i,
    {
        if s.get_char(i) != prefix.get_char(i) {
            assert(s@.subrange(0, p as int)[i as int] != prefix@[i as int]);
            return None;
        }
        i = i + 1;
    }
    assert(s@.subrange(0, p as int) =~= prefix@);
    Some(s.substring_char(p, n))
}

/// The identifiers named by a listing of the originals namespace, in listing order;
/// an unavailable listing names none.
pub fn listed_images(listing: Option<Vec<String>>) -> (r: Vec<String>)
    ensures
        texts(r@) == match listing {
            Some(keys) => image_names(texts(keys@)),
            None => Seq::empty(),
        },
{
    let mut out: Vec<String> = Vec::new();
    match listing {
        None => {
            assert(texts(out@) =~= Seq::empty());
            out
        },
        Some(keys) => {
            let mut i: usize = 0;
            while i < keys.len()
                invariant
                    i <= keys@.len(),
                    texts(out@) == image_names(texts(keys@).subrange(0, i as int)),
                decreases keys@.len() - i,
            {
                let ghost before = out@;
                match strip_prefix(keys[i].as_str(), IMAGE_FOLDER) {
                    Some(rest) => {
                        if rest.unicode_len() > 0 {
                            out.push(String::from_str(rest));
                        }
                    },
                    None => {},
                }
                proof {
                    let ks = texts(keys@).subrange(0, i + 1);
                    assert(ks.drop_last() =~= texts(keys@).subrange(0, i as int));
                    assert(ks.last() == keys@[i as int]@);
                    assert(texts(out@) =~= image_names(ks));
                }
                i = i + 1;
            }
            assert(texts(keys@).subrange(0, keys@.len() as int) =~= texts(keys@));
            out
        },
    }
}

/// Reads the backend's answer to a write: acknowledged only with status 200.
pub fn write_outcome(status: Option<u16>) -> (r: Result<u16, StorageError>)
    ensures
        r == (if status == Some(STATUS_OK) {
            Ok::<u16, StorageError>(STATUS_OK)
        } else {
            Err(StorageError::WriteFailed)
        }),
{
    match status {
        Some(code) => {
            if code == STATUS_OK {
                Ok(STATUS_OK)
            } else {
                Err(StorageError::WriteFailed)
            }
        },
        None => Err(StorageError::WriteFailed),
    }
}

/// Reads the backend's answer to a read: the bytes with status 200, nothing otherwise.
pub fn read_outcome(response: Option<(Vec<u8>, u16)>) -> (r: Option<Vec<u8>>)
    ensures
        match response {
            Some((data, code)) => if code == STATUS_OK {
                r == Some(data)
            } else {
                r is None
            },
            None => r is None,
        },
{
    match response {
        Some((data, code)) => {
            if code == STATUS_OK {
                Some(data)
            } else {
                None
            }
        },
        None => None,
    }
}

impl StorageSettings {
    /// Settings from optional values: the role defaults to `default` and the region to
    /// `us-east-1`; the bucket must be given.
    pub fn from_values(role: Option<String>, bucket: Option<String>, region: Option<String>) -> (r:
        Result<StorageSettings, SettingsError>)
        ensures
            match bucket {
                None => r == Err::<StorageSettings, SettingsError>(SettingsError::MissingBucket),
                Some(b) => r is Ok && r->Ok_0.bucket@ == b@ && r->Ok_0.role@ == (match role {
                    Some(x) => x@,
                    None => "default"@,
                }) && r->Ok_0.region@ == (match region {
                    Some(x) => x@,
                    None => "us-east-1"@,
                }),
            },
    {
        match bucket {
            None => Err(SettingsError::MissingBucket),
            Some(bucket) => {
                let role = match role {
                    Some(x) => x,
                    None => String::from_str("default"),
                };
                let region = match region {
                    Some(x) => x,
                    None => String::from_str("us-east-1"),
                };
                Ok(StorageSettings { role, bucket, region })
            },
        }
    }
}

pub open spec fn is_digit(c: char) -> bool {
    '0' <= c <= '9'
}

pub open spec fn digit_value(c: char) -> nat {
    if c == '1' {
        1
    } else if c == '2' {
        2
    } else if c == '3' {
        3
    } else if c == '4' {
        4
    } else if c == '5' {
        5
    } else if c == '6' {
        6
    } else if c == '7' {
        7
    } else if c == '8' {
        8
    } else if c == '9' {
        9
    } else {
        0
    }
}

/// The number that a string of decimal digits denotes.
pub open spec fn decimal_value(s: Seq<char>) -> nat
    decreases s.len(),
{
    if s.len() == 0 {
        0
    } else {
        decimal_value(s.drop_last()) * 10 + digit_value(s.last())
    }
}

/// Sides given are positive; an absent side stands for none.
pub open spec fn positive_sides(width: Option<u32>, height: Option<u32>) -> bool {
    &&& (width matches Some(w) ==> w > 0)
    &&& (height matches Some(h) ==> h > 0)
}

proof fn lemma_decimal(n: nat)
    ensures
        decimal(n).len() > 0,
        forall|i: int| 0 <= i < decimal(n).len() ==> is_digit(#[trigger] decimal(n)[i]),
        decimal_value(decimal(n)) == n,
    decreases n,
{
    if n >= 10 {
        lemma_decimal(n / 10);
        let d = decimal(n);
        assert(d.drop_last() =~= decimal(n / 10));
        assert(decimal_value(d) == (n / 10) * 10 + n % 10);
        assert forall|i: int| 0 <= i < d.len() implies is_digit(#[trigger] d[i]) by {
            if i < d.len() - 1 {
                assert(d[i] == decimal(n / 10)[i]);
            }
        }
        assert(decimal_value(d) == n);
    } else {
        assert(decimal(n).drop_last() =~= Seq::<char>::empty());
        assert(decimal_value(Seq::<char>::empty()) == 0);
        assert(decimal(n).last() == digit_char(n));
    }
}

proof fn lemma_separated_pairs(x1: Seq<char>, y1: Seq<char>, x2: Seq<char>, y2: Seq<char>)
    requires
        forall|i: int| 0 <= i < x1.len() ==> is_digit(#[trigger] x1[i]),
        forall|i: int| 0 <= i < x2.len() ==> is_digit(#[trigger] x2[i]),
        seq!['_'] + x1 + seq!['_'] + y1 == seq!['_'] + x2 + seq!['_'] + y2,
    ensures
        x1 == x2,
        y1 == y2,
{
    let s1 = seq!['_'] + x1 + seq!['_'] + y1;
    let s2 = seq!['_'] + x2 + seq!['_'] + y2;
    if x1.len() < x2.len() {
        assert(s1[1 + x1.len() as int] == '_');
        assert(s2[1 + x1.len() as int] == x2[x1.len() as int]);
    } else if x2.len() < x1.len() {
        assert(s2[1 + x2.len() as int] == '_');
        assert(s1[1 + x2.len() as int] == x1[x2.len() as int]);
    }
    assert(x1 =~= s1.subrange(1, 1 + x1.len() as int));
    assert(x2 =~= s2.subrange(1, 1 + x2.len() as int));
    assert(y1 =~= s1.subrange(2 + x1.len() as int, s1.len() as int));
    assert(y2 =~= s2.subrange(2 + x2.len() as int, s2.len() as int));
}

/// Reads and writes of a variant go through one key function, so equal requests share a key;
/// for one identifier, requests of different positive sides never share one, and no variant's
/// key is the original's.
pub proof fn lemma_derived_keys_distinct(
    name: Seq<char>,
    w1: Option<u32>,
    h1: Option<u32>,
    w2: Option<u32>,
    h2: Option<u32>,
)
    requires
        positive_sides(w1, h1),
        positive_sides(w2, h2),
        (w1, h1) != (w2, h2),
    ensures
        storage_key(name, w1, h1) != storage_key(name, w2, h2),
{
    let k1 = storage_key(name, w1, h1);
    let k2 = storage_key(name, w2, h2);
    reveal_strlit("images/");
    reveal_strlit("cache/");
    let v1 = w1 is Some || h1 is Some;
    let v2 = w2 is Some || h2 is Some;
    if v1 && !v2 {
        assert(k1[0] != k2[0]);
    } else if !v1 && v2 {
        assert(k1[0] != k2[0]);
    } else if v1 && v2 {
        if k1 == k2 {
            let p = CACHE_FOLDER@.len() + name.len();
            let a1 = decimal(or_zero(w1));
            let b1 = decimal(or_zero(h1));
            let a2 = decimal(or_zero(w2));
            let b2 = decimal(or_zero(h2));
            lemma_decimal(or_zero(w1));
            lemma_decimal(or_zero(h1));
            lemma_decimal(or_zero(w2));
            lemma_decimal(or_zero(h2));
            assert(k1.subrange(p as int, k1.len() as int) =~= seq!['_'] + a1 + seq!['_'] + b1);
            assert(k2.subrange(p as int, k2.len() as int) =~= seq!['_'] + a2 + seq!['_'] + b2);
            lemma_separated_pairs(a1, b1, a2, b2);
            assert(or_zero(w1) == or_zero(w2));
            assert(or_zero(h1) == or_zero(h2));
        }
    }
}

} // verus!
