//! Subresource-integrity checking of response bodies.
//!
//! An integrity value is a whitespace-separated list of
//! `algorithm-digest` pairs. [`normalize_integrity`] lowercases each
//! algorithm name, since the checker accepts only lowercase ones;
//! [`verify_integrity`] then hands the normalized value and the data to
//! the `ssri` crate and maps its verdict onto this crate's errors. The
//! digests themselves are ssri's business: what it computes is named,
//! not restated, by the uninterpreted functions below.

use vstd::prelude::*;

use crate::error::{FaithError, FaithErrorKind};
use crate::text::{
    append_chars, chars_of_str, drop_leading, find_char, is_ws_char, join_sp, lemma_find_char,
    lemma_join_sp_head, lemma_join_sp_snoc, lemma_split_ws_nonempty, lemma_split_ws_parts,
    lower_char, lower_char_exec, lower_seq, split_once_char, split_once_vec, split_ws,
    split_ws_vec, string_from_chars, subvec, trim_ws, trim_ws_vec, views_of,
};

verus! {

// ==================================================================
// Normalization
// ==================================================================

/// One part of an integrity value with its algorithm name lowercased:
/// the text before the first `-` is lowercased, the rest kept; a part
/// without `-` is kept whole.
pub open spec fn spec_normalize_part(part: Seq<char>) -> Seq<char> {
    match split_once_char(part, '-') {
        Some(ah) => lower_seq(ah.0) + seq!['-'] + ah.1,
        None => part,
    }
}

/// An integrity value with every algorithm name lowercased and the
/// parts joined by single spaces.
pub open spec fn spec_normalize(s: Seq<char>) -> Seq<char> {
    join_sp(split_ws(s).map_values(|p: Seq<char>| spec_normalize_part(p)))
}

/// Lowercases one part's algorithm name.
fn normalize_part(part: &Vec<char>) -> (r: Vec<char>)
    ensures
        r@ == spec_normalize_part(part@),
{
    match split_once_vec(part, '-') {
        Some(ah) => {
            let a = ah.0;
            let h = ah.1;
            let mut r: Vec<char> = Vec::new();
            let n = a.len();
            let mut i: usize = 0;
            while i < n
                invariant
                    i <= n,
                    n == a@.len(),
                    r@ =~= lower_seq(a@.take(i as int)),
                decreases n - i,
            {
                r.push(lower_char_exec(a[i]));
                proof {
                    assert(lower_seq(a@.take(i + 1 as int)) =~= lower_seq(a@.take(i as int)).push(
                        lower_char(a@[i as int]),
                    ));
                }
                i = i + 1;
            }
            r.push('-');
            append_chars(&mut r, &h);
            proof {
                assert(a@.take(n as int) =~= a@);
                assert(r@ =~= lower_seq(a@) + seq!['-'] + h@);
            }
            r
        },
        None => subvec(part, 0, part.len()),
    }
}

/// Rewrites an integrity value so that each part's algorithm name is
/// lowercase, as the checker requires, leaving the digests untouched.
pub fn normalize_integrity(integrity: &str) -> (r: String)
    ensures
        r@ == spec_normalize(integrity@),
{
    let chars = chars_of_str(integrity);
    let parts = split_ws_vec(&chars);
    let ghost tviews = split_ws(chars@).map_values(|p: Seq<char>| spec_normalize_part(p));
    let n = parts.len();
    let mut out: Vec<char> = Vec::new();
    proof {
        assert(tviews.take(0) =~= Seq::<Seq<char>>::empty());
    }
    let mut i: usize = 0;
    while i < n
        invariant
            i <= n,
            n == parts@.len(),
            views_of(parts@) == split_ws(chars@),
            tviews == split_ws(chars@).map_values(|p: Seq<char>| spec_normalize_part(p)),
            out@ == join_sp(tviews.take(i as int)),
        decreases n - i,
    {
        if i > 0 {
            out.push(' ');
        }
        let t = normalize_part(&parts[i]);
        append_chars(&mut out, &t);
        proof {
            lemma_join_sp_snoc(tviews.take(i as int), tviews[i as int]);
            assert(tviews.take(i as int).push(tviews[i as int]) =~= tviews.take(i + 1 as int));
            assert(t@ == tviews[i as int]);
            if i > 0 {
                assert(out@ =~= join_sp(tviews.take(i as int)) + seq![' '] + tviews[i as int]);
            } else {
                assert(out@ =~= tviews[i as int]);
            }
        }
        i = i + 1;
    }
    proof {
        assert(tviews.take(n as int) =~= tviews);
    }
    string_from_chars(&out)
}

// ==================================================================
// The checker, through ssri
// ==================================================================

#[verifier::external_type_specification]
#[verifier::external_body]
pub struct ExIntegrity(ssri::Integrity);

/// The hash entries an `ssri::Integrity` value holds, each as text.
pub uninterp spec fn integrity_hashes(i: ssri::Integrity) -> Seq<Seq<char>>;

/// Whether `s` parses as a subresource integrity string.
pub uninterp spec fn integrity_parses(s: Seq<char>) -> bool;

/// The hash entries that parsing `s` yields.
pub uninterp spec fn integrity_parsed_hashes(s: Seq<char>) -> Seq<Seq<char>>;

/// Whether `data` matches one of the given hash entries of the
/// strongest algorithm among them.
pub uninterp spec fn integrity_check_ok(hashes: Seq<Seq<char>>, data: Seq<u8>) -> bool;

/// Relies on `str::parse::<ssri::Integrity>`, ssri's `FromStr`: whether
/// a string parses, and what it holds, depend on the string alone; and
/// the parsed value holds exactly one hash entry per
/// whitespace-separated part of the string, since ssri parses each part
/// into one entry and sorting them keeps the count.
#[verifier::external_body]
fn parse_integrity(s: &String) -> (r: Result<ssri::Integrity, String>)
    ensures
        (r is Ok) == integrity_parses(s@),
        (r matches Ok(i) ==> integrity_hashes(i) == integrity_parsed_hashes(s@)),
        (r matches Ok(i) ==> integrity_hashes(i).len() == split_ws(s@).len()),
{
    match s.as_str().parse::<ssri::Integrity>() {
        Ok(i) => Ok(i),
        Err(e) => Err(e.to_string()),
    }
}

/// Relies on `ssri::Integrity::check`: the verdict is a function of the
/// hash entries and the data alone. ssri panics on a value with no
/// hash entries (it indexes the first), so that case is kept out.
#[verifier::external_body]
fn check_integrity(i: &ssri::Integrity, data: &[u8]) -> (r: bool)
    requires
        integrity_hashes(*i).len() > 0,
    ensures
        r == integrity_check_ok(integrity_hashes(*i), data@),
{
    i.check(data).is_ok()
}

// ==================================================================
// Verification
// ==================================================================

/// The verdict on a body against an integrity value: no error for a
/// blank value or a matching body; `InvalidIntegrity` when the
/// normalized value does not parse; `IntegrityMismatch` when it parses
/// and the body matches none of its strongest hashes.
pub open spec fn spec_verify_integrity(integrity: Seq<char>, data: Seq<u8>) -> Option<
    FaithErrorKind,
> {
    if trim_ws(integrity).len() == 0 {
        None
    } else if !integrity_parses(spec_normalize(integrity)) {
        Some(FaithErrorKind::InvalidIntegrity)
    } else if !integrity_check_ok(integrity_parsed_hashes(spec_normalize(integrity)), data) {
        Some(FaithErrorKind::IntegrityMismatch)
    } else {
        None
    }
}

/// The normalized form of a non-blank integrity value starts with a
/// non-whitespace character, so ssri sees at least one part in it.
proof fn lemma_normalized_splits(s: Seq<char>)
    requires
        trim_ws(s).len() > 0,
    ensures
        split_ws(spec_normalize(s)).len() >= 1,
{
    let parts = split_ws(s);
    let tparts = parts.map_values(|p: Seq<char>| spec_normalize_part(p));
    lemma_split_ws_nonempty(s);
    lemma_split_ws_parts(s);
    let p0 = parts[0];
    let t0 = tparts[0];
    assert(p0.len() > 0 && forall|j: int| 0 <= j < p0.len() ==> !is_ws_char(p0[j]));
    assert(t0 == spec_normalize_part(p0));
    // the transformed part is non-empty and starts with a
    // non-whitespace character
    match split_once_char(p0, '-') {
        Some(ah) => {
            lemma_find_char(p0, '-');
            let i = find_char(p0, '-');
            if i == 0 {
                assert(t0[0] == '-');
                assert(!is_ws_char('-'));
            } else {
                assert(ah.0[0] == p0[0]);
                assert(t0[0] == lower_char(p0[0]));
                assert(!is_ws_char(lower_char(p0[0])));
            }
        },
        None => {
            assert(t0[0] == p0[0]);
        },
    }
    lemma_join_sp_head(tparts);
    let norm = spec_normalize(s);
    assert(norm[0] == t0[0]);
    assert(!is_ws_char(norm[0]));
    let w = |c: char| is_ws_char(c);
    assert(drop_leading(norm, w) == norm);
}

/// Checks `data` against an integrity value.
///
/// A blank value demands nothing. Otherwise the value is normalized
/// and parsed: a value ssri cannot parse is `InvalidIntegrity`, with
/// ssri's words in the message; a parsed value whose hashes do not
/// match the data is `IntegrityMismatch`, with no message, as
/// [`spec_verify_integrity`] says.
pub fn verify_integrity(data: &[u8], integrity: &str) -> (r: Result<(), FaithError>)
    ensures
        (r is Ok) == (spec_verify_integrity(integrity@, data@) is None),
        (r matches Err(e) ==> {
            &&& spec_verify_integrity(integrity@, data@) == Some(e.kind)
            &&& (e.kind == FaithErrorKind::InvalidIntegrity ==> e.message is Some)
            &&& (e.kind == FaithErrorKind::IntegrityMismatch ==> e.message is None)
        }),
{
    let chars = chars_of_str(integrity);
    let trimmed = trim_ws_vec(&chars);
    if trimmed.len() == 0 {
        return Ok(());
    }
    let normalized = normalize_integrity(integrity);
    match parse_integrity(&normalized) {
        Err(msg) => {
            let mut full = String::from_str("failed to parse integrity value: ");
            full.append(msg.as_str());
            Err(FaithError::new(FaithErrorKind::InvalidIntegrity, Some(full)))
        },
        Ok(parsed) => {
            proof {
                lemma_normalized_splits(integrity@);
            }
            if check_integrity(&parsed, data) {
                Ok(())
            } else {
                Err(FaithError::new(FaithErrorKind::IntegrityMismatch, None))
            }
        },
    }
}

} // verus!
