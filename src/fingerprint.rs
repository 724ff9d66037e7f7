//! Fingerprints: lowercase hex SHA-256 digests of exactly the attributes
//! the engine manages.
use vstd::prelude::*;
use vstd::utf8::encode_utf8;

verus! {

/// The SHA-256 digest of a byte sequence.
pub uninterp spec fn sha256_of(data: Seq<u8>) -> Seq<u8>;

/// Relies on sha2's `Sha256::digest`: the SHA-256 digest of the input, which
/// is 32 bytes long (`Sha256`'s output size).
#[verifier::external_body]
fn sha256(data: &[u8]) -> (r: Vec<u8>)
    ensures
        r@ == sha256_of(data@),
        r@.len() == 32,
{
    <sha2::Sha256 as sha2::Digest>::digest(data).to_vec()
}

/// The lowercase hex digit for a value below 16.
pub open spec fn hex_digit(n: u8) -> char {
    if n < 10 {
        ((48 + n) as u8) as char
    } else {
        ((87 + n) as u8) as char
    }
}

/// Two lowercase hex digits per byte, high nibble first.
pub open spec fn hex_of(b: Seq<u8>) -> Seq<char>
    decreases b.len(),
{
    if b.len() == 0 {
        Seq::empty()
    } else {
        hex_of(b.drop_last()) + seq![hex_digit(b.last() / 16), hex_digit(b.last() % 16)]
    }
}

fn digit_str(n: u8) -> (r: &'static str)
    requires
        n < 16,
    ensures
        r@ == seq![hex_digit(n)],
{
    match n {
        0 => {
            proof {
                reveal_strlit("0");
            }
            "0"
        },
        1 => {
            proof {
                reveal_strlit("1");
            }
            "1"
        },
        2 => {
            proof {
                reveal_strlit("2");
            }
            "2"
        },
        3 => {
            proof {
                reveal_strlit("3");
            }
            "3"
        },
        4 => {
            proof {
                reveal_strlit("4");
            }
            "4"
        },
        5 => {
            proof {
                reveal_strlit("5");
            }
            "5"
        },
        6 => {
            proof {
                reveal_strlit("6");
            }
            "6"
        },
        7 => {
            proof {
                reveal_strlit("7");
            }
            "7"
        },
        8 => {
            proof {
                reveal_strlit("8");
            }
            "8"
        },
        9 => {
            proof {
                reveal_strlit("9");
            }
            "9"
        },
        10 => {
            proof {
                reveal_strlit("a");
            }
            "a"
        },
        11 => {
            proof {
                reveal_strlit("b");
            }
            "b"
        },
        12 => {
            proof {
                reveal_strlit("c");
            }
            "c"
        },
        13 => {
            proof {
                reveal_strlit("d");
            }
            "d"
        },
        14 => {
            proof {
                reveal_strlit("e");
            }
            "e"
        },
        _ => {
            proof {
                reveal_strlit("f");
            }
            "f"
        },
    }
}

/// Lowercase hex encoding of bytes.
pub fn to_hex(b: &[u8]) -> (r: String)
    ensures
        r@ == hex_of(b@),
{
    let mut r = String::new();
    let mut i: usize = 0;
    while i < b.len()
        invariant
            i <= b@.len(),
            r@ == hex_of(b@.take(i as int)),
        decreases b@.len() - i,
    {
        let x = b[i];
        proof {
            assert(b@.take(i as int + 1).drop_last() =~= b@.take(i as int));
        }
        r.append(digit_str(x / 16));
        r.append(digit_str(x % 16));
        i += 1;
    }
    proof {
        assert(b@.take(b@.len() as int) =~= b@);
    }
    r
}

/// Appends the UTF-8 bytes of `s`.
pub(crate) fn push_str_bytes(v: &mut Vec<u8>, s: &str)
    ensures
        final(v)@ == old(v)@ + encode_utf8(s@),
{
    let b = s.as_bytes();
    let mut i: usize = 0;
    while i < b.len()
        invariant
            i <= b@.len(),
            b@ == encode_utf8(s@),
            v@ == old(v)@ + b@.take(i as int),
        decreases b@.len() - i,
    {
        v.push(b[i]);
        proof {
            assert(b@.take(i as int + 1) =~= b@.take(i as int).push(b@[i as int]));
        }
        i += 1;
    }
    proof {
        assert(b@.take(b@.len() as int) =~= b@);
    }
}

/// The fingerprint of a byte sequence.
pub fn fingerprint_bytes(data: &[u8]) -> (r: String)
    ensures
        r@ == hex_of(sha256_of(data@)),
{
    let digest = sha256(data);
    to_hex(digest.as_slice())
}

/// The fingerprint of several parts hashed one after the other, as the
/// content of a directory tree taken file by file in path order.
pub fn fingerprint_parts(parts: &Vec<Vec<u8>>) -> (r: String)
    ensures
        r@ == hex_of(sha256_of(concat_parts(parts@.map_values(|p: Vec<u8>| p@)))),
{
    let mut all: Vec<u8> = Vec::new();
    let mut i: usize = 0;
    while i < parts.len()
        invariant
            i <= parts@.len(),
            all@ == concat_parts(parts@.map_values(|p: Vec<u8>| p@).take(i as int)),
        decreases parts@.len() - i,
    {
        let part = &parts[i];
        let mut j: usize = 0;
        while j < part.len()
            invariant
                i < parts@.len(),
                part == parts@[i as int],
                j <= part@.len(),
                all@ == concat_parts(parts@.map_values(|p: Vec<u8>| p@).take(i as int)) + part@.take(j as int),
            decreases part@.len() - j,
        {
            all.push(part[j]);
            proof {
                assert(part@.take(j as int + 1) =~= part@.take(j as int).push(part@[j as int]));
            }
            j += 1;
        }
        proof {
            let views = parts@.map_values(|p: Vec<u8>| p@);
            assert(views.take(i as int + 1).drop_last() =~= views.take(i as int));
            assert(part@.take(part@.len() as int) =~= part@);
        }
        i += 1;
    }
    proof {
        let views = parts@.map_values(|p: Vec<u8>| p@);
        assert(views.take(parts@.len() as int) =~= views);
    }
    fingerprint_bytes(all.as_slice())
}

/// The parts one after the other.
pub open spec fn concat_parts(parts: Seq<Seq<u8>>) -> Seq<u8>
    decreases parts.len(),
{
    if parts.len() == 0 {
        Seq::empty()
    } else {
        concat_parts(parts.drop_last()) + parts.last()
    }
}

/// The text with leading and trailing whitespace removed.
pub uninterp spec fn trimmed(s: Seq<char>) -> Seq<char>;

/// Relies on `str::trim`: the result is `s` without its leading and trailing
/// whitespace, and depends on `s` alone.
#[verifier::external_body]
pub(crate) fn trim(s: &str) -> (r: &str)
    ensures
        r@ == trimmed(s@),
{
    s.trim()
}

/// The fingerprint of a custom command: its text without surrounding whitespace.
pub fn command_fingerprint(command: &str) -> (r: String)
    ensures
        r@ == hex_of(sha256_of(encode_utf8(trimmed(command@)))),
{
    let mut data: Vec<u8> = Vec::new();
    push_str_bytes(&mut data, trim(command));
    proof {
        assert(data@ =~= encode_utf8(trimmed(command@)));
    }
    fingerprint_bytes(data.as_slice())
}

/// What the fingerprint of a custom service covers: its unit text and, where
/// there is one, its timer text, each without surrounding whitespace.
pub open spec fn service_preimage(service: Seq<char>, timer: Option<Seq<char>>) -> Seq<u8> {
    encode_utf8(trimmed(service)) + match timer {
        Some(t) => encode_utf8(trimmed(t)),
        None => Seq::empty(),
    }
}

/// The fingerprint of a custom service definition.
pub fn service_fingerprint(service: &str, timer: Option<&str>) -> (r: String)
    ensures
        r@ == hex_of(
            sha256_of(
                service_preimage(
                    service@,
                    match timer {
                        Some(t) => Some(t@),
                        None => None,
                    },
                ),
            ),
        ),
{
    let mut data: Vec<u8> = Vec::new();
    push_str_bytes(&mut data, trim(service));
    match timer {
        Some(t) => push_str_bytes(&mut data, trim(t)),
        None => {},
    }
    proof {
        assert(data@ =~= service_preimage(
            service@,
            match timer {
                Some(t) => Some(t@),
                None => None,
            },
        ));
    }
    fingerprint_bytes(data.as_slice())
}

} // verus!
