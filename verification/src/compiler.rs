//! The module compiler model.
//!
//! The real assembler that turns program text into executable code is an
//! external collaborator and a pure function of its inputs.  The library
//! models its artifacts as values carrying an execution-context kind and a
//! digest derived deterministically from the program text and the linked
//! libraries, and validates what the compiler validates at its interface:
//! the shape of a library path, and that a source is not empty.

use vstd::prelude::*;
use vstd::string::StrSliceExecFns;
use crate::digest::{digest_ok, mix, spec_digest, DIGEST_SEED};
use crate::errors::CompileError;

verus! {

/// The execution context a compiled script is valid for.
#[derive(Clone, Copy, Debug, PartialEq, Eq, Structural)]
pub enum ArtifactKind {
    /// A script carried by a note and run when the note is consumed.
    NoteScript,
    /// A custom script run directly by a transaction.
    TransactionScript,
}

/// A compiled script: its execution context and the digest of what it
/// was compiled from.
#[derive(Clone, Copy, Debug, PartialEq, Eq, Structural)]
pub struct ScriptArtifact {
    pub kind: ArtifactKind,
    pub digest: u64,
}

/// A compiled library: the path it is addressed by and the digest of its
/// source.
#[derive(Debug)]
pub struct Library {
    pub path: String,
    pub digest: u64,
}

impl Clone for Library {
    /// A copy of the library: same path, same digest.
    fn clone(&self) -> (r: Self)
        ensures
            r.path@ == self.path@,
            r.digest == self.digest,
    {
        Library { path: self.path.clone(), digest: self.digest }
    }
}

/// A word that no character can produce, separating the parts of a
/// compilation in digest derivation.
pub const SEP_WORD: u64 = 0x0011_0000;

/// The words of a character sequence, one per character.
pub open spec fn chars_words(s: Seq<char>) -> Seq<u64> {
    s.map_values(|c: char| c as u64)
}

/// The digest of a library compiled from `source` at `path`.
pub open spec fn library_digest(path: Seq<char>, source: Seq<char>) -> u64 {
    spec_digest(chars_words(path) + seq![SEP_WORD] + chars_words(source))
}

/// The digests of a library list, in order.
pub open spec fn libs_digests(libs: Seq<Library>) -> Seq<u64> {
    libs.map_values(|l: Library| l.digest)
}

/// The digest of a script compiled from `source` with the given linked
/// libraries.
pub open spec fn script_digest(libs: Seq<u64>, source: Seq<char>) -> u64 {
    spec_digest(libs + seq![SEP_WORD] + chars_words(source))
}

/// Whether a character may stand in a library path component.
pub open spec fn is_ident_char(c: char) -> bool {
    ||| (97 <= c as u32 && c as u32 <= 122)  // 'a'..='z'
    ||| (65 <= c as u32 && c as u32 <= 90)  // 'A'..='Z'
    ||| (48 <= c as u32 && c as u32 <= 57)  // '0'..='9'
    ||| c as u32 == 95  // '_'
}

/// Whether a character is the path separator colon.
pub open spec fn is_colon(c: char) -> bool {
    c as u32 == 58
}

/// Whether a character may appear in a library path at all.
pub open spec fn path_char_ok(c: char) -> bool {
    is_ident_char(c) || is_colon(c)
}

/// A well-formed library path: identifier components joined by `::`,
/// with at least two components.  Colons appear only inside separators,
/// which are exactly two colons wide and never touch the ends.
pub open spec fn library_path_valid(s: Seq<char>) -> bool {
    &&& s.len() > 0
    &&& forall|i: int| 0 <= i < s.len() ==> path_char_ok(#[trigger] s[i])
    &&& !is_colon(s[0])
    &&& !is_colon(s[s.len() - 1])
    &&& forall|i: int|
        0 <= i < s.len() && is_colon(#[trigger] s[i]) ==> ((i + 1 < s.len() && is_colon(s[i + 1]))
            || (0 < i && is_colon(s[i - 1])))
    &&& forall|i: int|
        0 <= i && i + 2 < s.len() ==> !(is_colon(#[trigger] s[i]) && is_colon(s[i + 1]) && is_colon(
            s[i + 2],
        ))
    &&& exists|i: int| 0 <= i < s.len() && is_colon(#[trigger] s[i])
}

/// Checks one character for separator use.
fn colon_char(c: char) -> (r: bool)
    ensures
        r == is_colon(c),
{
    c as u32 == 58
}

/// Checks one character for path use.
fn path_char(c: char) -> (r: bool)
    ensures
        r == path_char_ok(c),
{
    let u = c as u32;
    (97 <= u && u <= 122) || (65 <= u && u <= 90) || (48 <= u && u <= 57) || u == 95 || u == 58
}

/// Validates the shape of a library path.
pub fn validate_library_path(s: &str) -> (r: bool)
    ensures
        r == library_path_valid(s@),
{
    let n = s.unicode_len();
    if n == 0 {
        return false;
    }
    if colon_char(s.get_char(0)) {
        return false;
    }
    if colon_char(s.get_char(n - 1)) {
        return false;
    }
    let mut found: bool = false;
    let mut i: usize = 0;
    while i < n
        invariant
            i <= n,
            n == s@.len(),
            forall|j: int| 0 <= j < i ==> path_char_ok(#[trigger] s@[j]),
            forall|j: int|
                0 <= j < i && is_colon(#[trigger] s@[j]) ==> ((j + 1 < s@.len() && is_colon(
                    s@[j + 1],
                )) || (0 < j && is_colon(s@[j - 1]))),
            forall|j: int|
                0 <= j < i && j + 2 < s@.len() ==> !(is_colon(#[trigger] s@[j]) && is_colon(
                    s@[j + 1],
                ) && is_colon(s@[j + 2])),
            found <==> exists|j: int| 0 <= j < i && is_colon(#[trigger] s@[j]),
        decreases n - i,
    {
        let c = s.get_char(i);
        if !path_char(c) {
            return false;
        }
        if colon_char(c) {
            found = true;
            let left = i > 0 && colon_char(s.get_char(i - 1));
            let right = i + 1 < n && colon_char(s.get_char(i + 1));
            if !left && !right {
                return false;
            }
            if right && i + 2 < n && colon_char(s.get_char(i + 2)) {
                return false;
            }
        }
        i = i + 1;
    }
    found
}

/// Appends the digest words of a character sequence.
fn push_chars(v: &mut Vec<u64>, s: &str)
    ensures
        final(v)@ == old(v)@ + chars_words(s@),
{
    let n = s.unicode_len();
    let mut i: usize = 0;
    while i < n
        invariant
            i <= n,
            n == s@.len(),
            v@ == old(v)@ + chars_words(s@.take(i as int)),
        decreases n - i,
    {
        let c = s.get_char(i);
        v.push(c as u64);
        proof {
            assert(chars_words(s@.take(i + 1)) =~= chars_words(s@.take(i as int)).push(
                s@[i as int] as u64,
            ));
            assert(v@ =~= old(v)@ + chars_words(s@.take(i + 1)));
        }
        i = i + 1;
    }
    proof {
        assert(s@.take(s@.len() as int) =~= s@);
    }
}

/// Creates a library from the provided account code and library path.
///
/// The path must be a well-formed `namespace::name` path and the source
/// must not be empty; either failure is a [`CompileError`], the path
/// checked first.  The resulting library's digest is a pure function of
/// the path and the source.
pub fn create_library(account_code: String, library_path: &str) -> (r: Result<
    Library,
    CompileError,
>)
    ensures
        r is Ok <==> (library_path_valid(library_path@) && account_code@.len() > 0),
        r matches Ok(lib) ==> {
            &&& lib.path@ == library_path@
            &&& lib.digest == library_digest(library_path@, account_code@)
        },
        r matches Err(e) ==> if !library_path_valid(library_path@) {
            e == CompileError::InvalidLibraryPath
        } else {
            e == CompileError::EmptySource
        },
{
    if !validate_library_path(library_path) {
        return Err(CompileError::InvalidLibraryPath);
    }
    if account_code.as_str().unicode_len() == 0 {
        return Err(CompileError::EmptySource);
    }
    let mut v: Vec<u64> = Vec::new();
    push_chars(&mut v, library_path);
    v.push(SEP_WORD);
    push_chars(&mut v, account_code.as_str());
    proof {
        assert(v@ =~= chars_words(library_path@) + seq![SEP_WORD] + chars_words(account_code@));
    }
    let d = crate::digest::digest_words(&v);
    Ok(Library { path: String::from_str(library_path), digest: d })
}

/// Collects the digests of the linked libraries, in order.
fn collect_lib_digests(libraries: &Vec<Library>) -> (v: Vec<u64>)
    ensures
        v@ == libs_digests(libraries@),
{
    let mut v: Vec<u64> = Vec::new();
    let mut i: usize = 0;
    while i < libraries.len()
        invariant
            i <= libraries.len(),
            v@ == libs_digests(libraries@.take(i as int)),
        decreases libraries.len() - i,
    {
        v.push(libraries[i].digest);
        proof {
            assert(libs_digests(libraries@.take(i + 1)) =~= libs_digests(
                libraries@.take(i as int),
            ).push(libraries@[i as int].digest));
        }
        i = i + 1;
    }
    proof {
        assert(libraries@.take(libraries@.len() as int) =~= libraries@);
    }
    v
}

/// Compiles a script for the given execution context, with the given
/// linked libraries.  The model compiler rejects exactly the empty
/// source; the artifact's digest is a pure function of the libraries and
/// the source.
fn compile_script(source: &str, libraries: &Vec<Library>, kind: ArtifactKind) -> (r: Result<
    ScriptArtifact,
    CompileError,
>)
    ensures
        r is Ok <==> source@.len() > 0,
        r matches Ok(a) ==> {
            &&& a.kind == kind
            &&& a.digest == script_digest(libs_digests(libraries@), source@)
        },
        r matches Err(e) ==> e == CompileError::EmptySource,
{
    if source.unicode_len() == 0 {
        return Err(CompileError::EmptySource);
    }
    let mut v = collect_lib_digests(libraries);
    v.push(SEP_WORD);
    push_chars(&mut v, source);
    proof {
        assert(v@ =~= libs_digests(libraries@) + seq![SEP_WORD] + chars_words(source@));
    }
    let d = crate::digest::digest_words(&v);
    Ok(ScriptArtifact { kind, digest: d })
}

/// Compiles a note script with the given linked libraries.
pub fn compile_note_script(source: &str, libraries: &Vec<Library>) -> (r: Result<
    ScriptArtifact,
    CompileError,
>)
    ensures
        r is Ok <==> source@.len() > 0,
        r matches Ok(a) ==> {
            &&& a.kind == ArtifactKind::NoteScript
            &&& a.digest == script_digest(libs_digests(libraries@), source@)
        },
        r matches Err(e) ==> e == CompileError::EmptySource,
{
    compile_script(source, libraries, ArtifactKind::NoteScript)
}

/// Compiles a transaction script with the given linked libraries.
pub fn compile_tx_script(source: &str, libraries: &Vec<Library>) -> (r: Result<
    ScriptArtifact,
    CompileError,
>)
    ensures
        r is Ok <==> source@.len() > 0,
        r matches Ok(a) ==> {
            &&& a.kind == ArtifactKind::TransactionScript
            &&& a.digest == script_digest(libs_digests(libraries@), source@)
        },
        r matches Err(e) ==> e == CompileError::EmptySource,
{
    compile_script(source, libraries, ArtifactKind::TransactionScript)
}

} // verus!
