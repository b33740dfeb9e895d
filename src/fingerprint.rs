//! The identity of an invocation: a fingerprint of its arguments, which
//! names the state file, so that identical invocations share one position
//! and different ones keep apart.

use crypto::digest::Digest;
use crypto::sha2::Sha256;
use vstd::prelude::*;
use vstd::string::{StrSliceExecFns, StringExecFns};

verus! {

/// The lowercase hexadecimal SHA-256 digest of the UTF-8 bytes of a text.
pub uninterp spec fn sha256_hex(s: Seq<char>) -> Seq<char>;

/// Relies on rust-crypto's `Sha256` through `Digest::input_str` and
/// `Digest::result_str`: the hex digest of the text's bytes, two characters
/// for each of its 32 bytes.
#[verifier::external_body]
fn sha256_digest(input: &str) -> (r: String)
    ensures
        r@ == sha256_hex(input@),
        r@.len() == 64,
{
    let mut sha = Sha256::new();
    sha.input_str(input);
    sha.result_str()
}

/// The number of digest characters kept in a fingerprint.
pub const FINGERPRINT_LEN: usize = 16;

/// The arguments joined by dashes.
pub open spec fn joined(args: Seq<String>) -> Seq<char>
    decreases args.len(),
{
    if args.len() == 0 {
        Seq::empty()
    } else if args.len() == 1 {
        args[0]@
    } else {
        joined(args.drop_last()) + "-"@ + args.last()@
    }
}

/// The fingerprint of a text: the first characters of its digest.
pub open spec fn fingerprint_of(s: Seq<char>) -> Seq<char> {
    sha256_hex(s).subrange(0, FINGERPRINT_LEN as int)
}

/// The name of the state file of an invocation with these arguments.
pub open spec fn state_name(args: Seq<String>) -> Seq<char> {
    "cmdseq."@ + fingerprint_of(joined(args))
}

/// Joins the arguments with a dash between each two.
pub fn join_args(args: &Vec<String>) -> (r: String)
    ensures
        r@ == joined(args@),
{
    let mut r = String::new();
    let mut i: usize = 0;
    while i < args.len()
        invariant
            i <= args@.len(),
            r@ == joined(args@.take(i as int)),
        decreases args@.len() - i,
    {
        proof {
            assert(args@.take(i + 1).drop_last() =~= args@.take(i as int));
        }
        if i > 0 {
            r.append("-");
        }
        r.append(args[i].as_str());
        i = i + 1;
    }
    proof {
        assert(args@.take(args@.len() as int) =~= args@);
    }
    r
}

/// Shortens a hex digest to a fingerprint.
pub fn short_fingerprint(digest: &str) -> (r: String)
    requires
        digest@.len() >= FINGERPRINT_LEN,
    ensures
        r@ == digest@.subrange(0, FINGERPRINT_LEN as int),
{
    String::from_str(digest.substring_char(0, FINGERPRINT_LEN))
}

/// The fingerprint of a text.
pub fn hash(input: &str) -> (r: String)
    ensures
        r@ == fingerprint_of(input@),
{
    let digest = sha256_digest(input);
    short_fingerprint(digest.as_str())
}

/// The name of the state file for an invocation with these arguments
/// (the program name left out).
pub fn state_file_name(args: &Vec<String>) -> (r: String)
    ensures
        r@ == state_name(args@),
{
    let joined = join_args(args);
    let fingerprint = hash(joined.as_str());
    let name = String::from_str("cmdseq.");
    name.concat(fingerprint.as_str())
}

/// Joining is determined by the texts of the arguments.
proof fn lemma_joined_texts(a: Seq<String>, b: Seq<String>)
    requires
        a.len() == b.len(),
        forall|i: int| 0 <= i < a.len() ==> (#[trigger] a[i])@ == b[i]@,
    ensures
        joined(a) == joined(b),
    decreases a.len(),
{
    if a.len() > 1 {
        lemma_joined_texts(a.drop_last(), b.drop_last());
    }
}

/// The same arguments always name the same state file.
pub proof fn lemma_same_arguments_same_file(a: Seq<String>, b: Seq<String>)
    requires
        a.len() == b.len(),
        forall|i: int| 0 <= i < a.len() ==> (#[trigger] a[i])@ == b[i]@,
    ensures
        state_name(a) == state_name(b),
{
    lemma_joined_texts(a, b);
}

} // verus!
