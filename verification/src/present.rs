//! Rendering a normalized result as pretty structured text.
//!
//! The output is a JSON object with two-space indentation: the version tag
//! as a `major.minor.patch` string, and the two hash sequences as arrays of
//! one-key objects mapping the hash's variant name to its digest in
//! lowercase hex — `null` where the block was not found.
use vstd::prelude::*;

use crate::block::ProtocolVersion;
use crate::block::TransactionHash;
use crate::block::TransactionHashV;
use crate::list::ListTransactionsResult;
use crate::list::ListTransactionsResultV;

verus! {

/// Relies on std's `String::push`: appends the given character onto the end
/// of this `String`.
pub assume_specification[ String::push ](s: &mut String, c: char)
    ensures
        final(s)@ == old(s)@.push(c),
;

pub open spec fn digit_char(d: int) -> char {
    if d == 0 {
        '0'
    } else if d == 1 {
        '1'
    } else if d == 2 {
        '2'
    } else if d == 3 {
        '3'
    } else if d == 4 {
        '4'
    } else if d == 5 {
        '5'
    } else if d == 6 {
        '6'
    } else if d == 7 {
        '7'
    } else if d == 8 {
        '8'
    } else {
        '9'
    }
}

pub open spec fn hex_char(d: int) -> char {
    if d < 10 {
        digit_char(d)
    } else if d == 10 {
        'a'
    } else if d == 11 {
        'b'
    } else if d == 12 {
        'c'
    } else if d == 13 {
        'd'
    } else if d == 14 {
        'e'
    } else {
        'f'
    }
}

/// Decimal text of a nonnegative number, most significant digit first.
pub open spec fn dec_chars(n: int) -> Seq<char>
    decreases n,
{
    if n < 10 {
        seq![digit_char(n)]
    } else {
        dec_chars(n / 10).push(digit_char(n % 10))
    }
}

/// Lowercase hex text of a byte run, two characters per byte.
pub open spec fn hex_chars(s: Seq<u8>) -> Seq<char> {
    Seq::new(
        2 * s.len(),
        |i: int|
            if i % 2 == 0 {
                hex_char(s[i / 2] as int / 16)
            } else {
                hex_char(s[i / 2] as int % 16)
            },
    )
}

pub open spec fn hash_variant_name(h: TransactionHashV) -> Seq<char> {
    match h {
        TransactionHashV::Deploy(_) => "Deploy"@,
        TransactionHashV::Version1(_) => "Version1"@,
    }
}

pub open spec fn hash_digest(h: TransactionHashV) -> Seq<u8> {
    match h {
        TransactionHashV::Deploy(d) => d,
        TransactionHashV::Version1(d) => d,
    }
}

/// One list entry: a one-key object at array indentation.
pub open spec fn render_hash_entry(h: TransactionHashV) -> Seq<char> {
    "    {\n      \""@ + hash_variant_name(h) + "\": \""@ + hex_chars(hash_digest(h))
        + "\"\n    }"@
}

/// The entries joined with commas.
pub open spec fn render_hash_list(hs: Seq<TransactionHashV>) -> Seq<char>
    decreases hs.len(),
{
    if hs.len() == 0 {
        Seq::empty()
    } else if hs.len() == 1 {
        render_hash_entry(hs[0])
    } else {
        render_hash_list(hs.drop_last()) + ",\n"@ + render_hash_entry(hs.last())
    }
}

/// A hash sequence field: `null` when absent, `[]` when empty, otherwise a
/// multi-line array.
pub open spec fn render_hashes_field(o: Option<Seq<TransactionHashV>>) -> Seq<char> {
    match o {
        None => "null"@,
        Some(hs) => if hs.len() == 0 {
            "[]"@
        } else {
            "[\n"@ + render_hash_list(hs) + "\n  ]"@
        },
    }
}

pub open spec fn render_version(v: ProtocolVersion) -> Seq<char> {
    dec_chars(v.major as int) + "."@ + dec_chars(v.minor as int) + "."@ + dec_chars(v.patch as int)
}

/// The whole rendered document.
pub open spec fn spec_present(r: ListTransactionsResultV) -> Seq<char> {
    "{\n  \"api_version\": \""@ + render_version(r.api_version)
        + "\",\n  \"transaction_hashes\": "@ + render_hashes_field(r.transaction_hashes)
        + ",\n  \"transfer_hashes\": "@ + render_hashes_field(r.transfer_hashes) + "\n}"@
}

// ---------------------------------------------------------------------------
// Exec
// ---------------------------------------------------------------------------

fn push_digit(out: &mut String, d: u64)
    requires
        d <= 9,
    ensures
        final(out)@ == old(out)@.push(digit_char(d as int)),
{
    let c = match d {
        0 => '0',
        1 => '1',
        2 => '2',
        3 => '3',
        4 => '4',
        5 => '5',
        6 => '6',
        7 => '7',
        8 => '8',
        _ => '9',
    };
    out.push(c);
}

fn push_hex_digit(out: &mut String, d: u8)
    requires
        d <= 15,
    ensures
        final(out)@ == old(out)@.push(hex_char(d as int)),
{
    let c = match d {
        0 => '0',
        1 => '1',
        2 => '2',
        3 => '3',
        4 => '4',
        5 => '5',
        6 => '6',
        7 => '7',
        8 => '8',
        9 => '9',
        10 => 'a',
        11 => 'b',
        12 => 'c',
        13 => 'd',
        14 => 'e',
        _ => 'f',
    };
    out.push(c);
}

fn push_dec(out: &mut String, n: u64)
    ensures
        final(out)@ == old(out)@ + dec_chars(n as int),
    decreases n,
{
    if n >= 10 {
        push_dec(out, n / 10);
    }
    push_digit(out, n % 10);
    proof {
        if n < 10 {
            assert(final(out)@ =~= old(out)@ + dec_chars(n as int));
        } else {
            assert(final(out)@ =~= old(out)@ + dec_chars(n as int));
        }
    }
}

fn push_hex(out: &mut String, d: &[u8])
    ensures
        final(out)@ == old(out)@ + hex_chars(d@),
{
    let n = d.len();
    let mut i: usize = 0;
    while i < n
        invariant
            i <= n == d@.len(),
            out@ == old(out)@ + hex_chars(d@).subrange(0, 2 * i as int),
        decreases n - i,
    {
        let b = d[i];
        push_hex_digit(out, b / 16);
        push_hex_digit(out, b % 16);
        proof {
            assert(hex_chars(d@)[2 * i as int] == hex_char(d@[i as int] as int / 16));
            assert(hex_chars(d@)[2 * i as int + 1] == hex_char(d@[i as int] as int % 16));
            assert(out@ =~= old(out)@ + hex_chars(d@).subrange(0, 2 * (i + 1) as int));
        }
        i = i + 1;
    }
    proof {
        assert(hex_chars(d@).subrange(0, 2 * n as int) =~= hex_chars(d@));
    }
}

fn push_hash_entry(out: &mut String, h: &TransactionHash)
    ensures
        final(out)@ == old(out)@ + render_hash_entry(h@),
{
    out.push_str("    {\n      \"");
    match h {
        TransactionHash::Deploy(d) => {
            out.push_str("Deploy");
            out.push_str("\": \"");
            push_hex(out, d.as_slice());
        },
        TransactionHash::Version1(d) => {
            out.push_str("Version1");
            out.push_str("\": \"");
            push_hex(out, d.as_slice());
        },
    }
    out.push_str("\"\n    }");
    proof {
        assert(final(out)@ =~= old(out)@ + render_hash_entry(h@));
    }
}

fn push_hashes_field(out: &mut String, o: &Option<Vec<TransactionHash>>)
    ensures
        final(out)@ == old(out)@ + render_hashes_field(crate::list::opt_hashes_view(*o)),
{
    match o {
        None => {
            out.push_str("null");
        },
        Some(hs) => {
            let n = hs.len();
            if n == 0 {
                out.push_str("[]");
                proof {
                    assert(crate::list::hashes_view(hs@) =~= Seq::<TransactionHashV>::empty());
                }
            } else {
                out.push_str("[\n");
                let ghost base = out@;
                let ghost views = crate::list::hashes_view(hs@);
                let mut i: usize = 0;
                while i < n
                    invariant
                        0 < i <= n || i == 0,
                        i <= n == hs@.len(),
                        views == crate::list::hashes_view(hs@),
                        views.len() == n,
                        forall|k: int| 0 <= k < n ==> #[trigger] views[k] == hs@[k]@,
                        i == 0 ==> out@ == base,
                        i > 0 ==> out@ == base + render_hash_list(views.subrange(0, i as int)),
                    decreases n - i,
                {
                    if i > 0 {
                        out.push_str(",\n");
                    }
                    push_hash_entry(out, &hs[i]);
                    proof {
                        let pre = views.subrange(0, i as int);
                        let post = views.subrange(0, i + 1 as int);
                        assert(post.drop_last() =~= pre);
                        assert(post.last() == views[i as int]);
                        if i == 0 {
                            assert(out@ =~= base + render_hash_list(post));
                        } else {
                            assert(out@ =~= base + render_hash_list(post));
                        }
                    }
                    i = i + 1;
                }
                proof {
                    assert(views.subrange(0, n as int) =~= views);
                }
                out.push_str("\n  ]");
            }
        },
    }
    proof {
        assert(final(out)@ =~= old(out)@ + render_hashes_field(crate::list::opt_hashes_view(*o)));
    }
}

/// Renders the normalized result, exactly as `spec_present` says.
pub fn present(r: &ListTransactionsResult) -> (out: String)
    ensures
        out@ == spec_present(r@),
{
    let mut out = String::new();
    out.push_str("{\n  \"api_version\": \"");
    push_dec(&mut out, r.api_version.major as u64);
    out.push_str(".");
    push_dec(&mut out, r.api_version.minor as u64);
    out.push_str(".");
    push_dec(&mut out, r.api_version.patch as u64);
    out.push_str("\",\n  \"transaction_hashes\": ");
    push_hashes_field(&mut out, &r.transaction_hashes);
    out.push_str(",\n  \"transfer_hashes\": ");
    push_hashes_field(&mut out, &r.transfer_hashes);
    out.push_str("\n}");
    proof {
        assert(out@ =~= spec_present(r@));
    }
    out
}

} // verus!
