//! Name resolver: extension filtering, the two destination naming strategies
//! (structural and content-addressed), and the bounded random-name fallback.

use vstd::prelude::*;
use vstd::string::*;

verus! {

/// Index of the last occurrence of `c` in `s`, or `-1` when absent.
pub open spec fn last_index_of(s: Seq<char>, c: char) -> int
    decreases s.len(),
{
    if s.len() == 0 {
        -1
    } else if s.last() == c {
        s.len() - 1
    } else {
        last_index_of(s.drop_last(), c)
    }
}

/// `last_index_of` points at an occurrence and nothing follows it.
pub proof fn lemma_last_index_of(s: Seq<char>, c: char)
    ensures
        -1 <= last_index_of(s, c) < s.len(),
        last_index_of(s, c) >= 0 ==> s[last_index_of(s, c)] == c,
        forall|j: int| last_index_of(s, c) < j < s.len() ==> s[j] != c,
    decreases s.len(),
{
    if s.len() == 0 {
    } else if s.last() == c {
    } else {
        lemma_last_index_of(s.drop_last(), c);
        assert forall|j: int| last_index_of(s, c) < j < s.len() implies s[j] != c by {
            if j < s.len() - 1 {
                assert(s.drop_last()[j] == s[j]);
            }
        }
    }
}

/// Finds the last occurrence of `c` in `s`.
fn rfind_char(s: &str, c: char) -> (r: Option<usize>)
    ensures
        match r {
            Option::Some(i) => i as int == last_index_of(s@, c),
            Option::None => last_index_of(s@, c) == -1,
        },
{
    proof {
        lemma_last_index_of(s@, c);
    }
    let n = s.unicode_len();
    let mut i = n;
    while i > 0
        invariant
            n == s@.len(),
            i <= n,
            forall|j: int| i <= j < n ==> s@[j] != c,
        decreases i,
    {
        i = i - 1;
        if s.get_char(i) == c {
            proof {
                lemma_last_index_of(s@, c);
            }
            return Option::Some(i);
        }
    }
    Option::None
}

/// The extension of a path: what follows the last dot of its final
/// component. There is none when the final component has no dot, or only a
/// leading one (a hidden file).
pub open spec fn spec_extension_of(p: Seq<char>) -> Option<Seq<char>> {
    let ls = last_index_of(p, '/');
    let ld = last_index_of(p, '.');
    if ld > ls + 1 {
        Option::Some(p.subrange(ld + 1, p.len() as int))
    } else {
        Option::None
    }
}

/// Extracts the extension of `path`, if any.
pub fn extension_of<'a>(path: &'a str) -> (r: Option<&'a str>)
    ensures
        match r {
            Option::Some(e) => spec_extension_of(path@) == Option::Some(e@),
            Option::None => spec_extension_of(path@) is None,
        },
{
    proof {
        lemma_last_index_of(path@, '/');
        lemma_last_index_of(path@, '.');
    }
    let n = path.unicode_len();
    let ld = match rfind_char(path, '.') {
        Option::Some(d) => d,
        Option::None => {
            return Option::None;
        },
    };
    let after_name_start = match rfind_char(path, '/') {
        Option::Some(s) => ld > s + 1,
        Option::None => ld > 0,
    };
    if after_name_start {
        Option::Some(path.substring_char(ld + 1, n))
    } else {
        Option::None
    }
}

/// `a` is `lo` or its upper-case form `up`.
pub open spec fn spec_char_ci(a: char, lo: char, up: char) -> bool {
    a == lo || a == up
}

/// The extension names a recognized raster image format: jpg, jpeg or png,
/// in any mix of case.
pub open spec fn spec_is_supported_extension(e: Seq<char>) -> bool {
    ||| (e.len() == 3 && spec_char_ci(e[0], 'j', 'J') && spec_char_ci(e[1], 'p', 'P')
        && spec_char_ci(e[2], 'g', 'G'))
    ||| (e.len() == 4 && spec_char_ci(e[0], 'j', 'J') && spec_char_ci(e[1], 'p', 'P')
        && spec_char_ci(e[2], 'e', 'E') && spec_char_ci(e[3], 'g', 'G'))
    ||| (e.len() == 3 && spec_char_ci(e[0], 'p', 'P') && spec_char_ci(e[1], 'n', 'N')
        && spec_char_ci(e[2], 'g', 'G'))
}

/// Whether `ext` names a recognized image format, case-insensitively.
pub fn is_supported_extension(ext: &str) -> (b: bool)
    ensures
        b == spec_is_supported_extension(ext@),
{
    let n = ext.unicode_len();
    if n == 3 {
        let c0 = ext.get_char(0);
        let c1 = ext.get_char(1);
        let c2 = ext.get_char(2);
        ((c0 == 'j' || c0 == 'J') && (c1 == 'p' || c1 == 'P') && (c2 == 'g' || c2 == 'G')) || ((c0
            == 'p' || c0 == 'P') && (c1 == 'n' || c1 == 'N') && (c2 == 'g' || c2 == 'G'))
    } else if n == 4 {
        let c0 = ext.get_char(0);
        let c1 = ext.get_char(1);
        let c2 = ext.get_char(2);
        let c3 = ext.get_char(3);
        (c0 == 'j' || c0 == 'J') && (c1 == 'p' || c1 == 'P') && (c2 == 'e' || c2 == 'E') && (c3
            == 'g' || c3 == 'G')
    } else {
        false
    }
}

/// The path names a recognized raster image file, by its extension.
pub open spec fn spec_is_supported_image_path(p: Seq<char>) -> bool {
    match spec_extension_of(p) {
        Option::Some(e) => spec_is_supported_extension(e),
        Option::None => false,
    }
}

/// Whether `path` has a recognized image extension.
pub fn is_supported_image_path(path: &str) -> (b: bool)
    ensures
        b == spec_is_supported_image_path(path@),
{
    match extension_of(path) {
        Option::Some(e) => is_supported_extension(e),
        Option::None => false,
    }
}

/// Destination category subdirectory for a landscape image.
pub open spec fn spec_category_dir(suitable: bool) -> Seq<char> {
    if suitable {
        "widescreen"@
    } else {
        "normal"@
    }
}

/// The category subdirectory: `widescreen` for suitable ratios, `normal`
/// otherwise.
pub fn category_dir(suitable: bool) -> (r: &'static str)
    ensures
        r@ == spec_category_dir(suitable),
{
    if suitable {
        "widescreen"
    } else {
        "normal"
    }
}

/// Structural destination path: the category subdirectory under the
/// destination root, then the candidate's path relative to the scan root.
pub open spec fn spec_structural_dest_path(root: Seq<char>, suitable: bool, rel: Seq<char>) -> Seq<
    char,
> {
    root + "/"@ + spec_category_dir(suitable) + "/"@ + rel
}

/// Builds the structural destination path, preserving the original relative
/// path and file name under the category subdirectory.
pub fn structural_dest_path(dest_root: &str, suitable: bool, rel: &str) -> (r: String)
    ensures
        r@ == spec_structural_dest_path(dest_root@, suitable, rel@),
{
    let mut out = dest_root.to_owned();
    out.append("/");
    out.append(category_dir(suitable));
    out.append("/");
    out.append(rel);
    out
}

/// The 64-character lowercase-hex rendering of the cryptographic digest that
/// the content-addressed naming strategy derives from a file's bytes.
pub uninterp spec fn blake3_hex_of(data: Seq<u8>) -> Seq<char>;

/// Relies on `blake3::hash` and `blake3::Hash::to_hex`: the digest of the
/// input bytes, a function of those bytes alone, rendered as 64 lowercase
/// hexadecimal characters.
#[verifier::external_body]
fn blake3_hex(data: &[u8]) -> (r: String)
    ensures
        r@ == blake3_hex_of(data@),
        r@.len() == 64,
{
    blake3::hash(data).to_hex().as_str().to_string()
}

/// Content-addressed file name: the hex digest of `data`, a dot, and the
/// original extension.
pub open spec fn spec_content_filename(data: Seq<u8>, ext: Seq<char>) -> Seq<char> {
    blake3_hex_of(data) + "."@ + ext
}

/// Derives the content-addressed destination file name of a file with
/// contents `data` and extension `ext`. Two files with byte-identical
/// contents and equal extensions map to the same name.
pub fn content_filename(data: &[u8], ext: &str) -> (r: String)
    ensures
        r@ == spec_content_filename(data@, ext@),
{
    let mut out = blake3_hex(data);
    out.append(".");
    out.append(ext);
    out
}

/// A file name of the shape the random fallback produces: a 36-character
/// random identifier, a dot, and the extension `ext`.
pub open spec fn is_random_name_with_ext(name: Seq<char>, ext: Seq<char>) -> bool {
    &&& name.len() == 37 + ext.len()
    &&& name.subrange(36, name.len() as int) == "."@ + ext
}

/// Relies on `uuid::Uuid::new_v4` and its `Display` impl: a fresh random
/// version-4 identifier in the hyphenated form of 36 characters. Nothing
/// relates two draws, so no more is stated.
#[verifier::external_body]
fn fresh_random_id() -> (r: String)
    ensures
        r@.len() == 36,
{
    uuid::Uuid::new_v4().to_string()
}

/// A candidate file name from a fresh random identifier.
pub fn random_filename(ext: &str) -> (r: String)
    ensures
        is_random_name_with_ext(r@, ext@),
{
    proof {
        reveal_strlit(".");
    }
    let mut out = fresh_random_id();
    out.append(".");
    out.append(ext);
    proof {
        assert(out@.subrange(36, out@.len() as int) =~= "."@ + ext@);
    }
    out
}

/// Upper bound on random naming attempts for one candidate. After this many
/// colliding draws the search degrades: it keeps the last name and reports
/// exhaustion instead of failing the scan.
pub const MAX_RANDOM_NAME_ATTEMPTS: u32 = 10;

/// Bounded search for a random destination file name that does not collide.
/// The caller alone can see the destination, so the search advances one
/// step per reported existence check.
pub struct RandomNameSearch {
    ext: String,
    candidate: String,
    attempts: u32,
    exhausted: bool,
}

impl RandomNameSearch {
    /// At least one attempt has been made, no more than the bound, and the
    /// current candidate has the random-name shape.
    pub closed spec fn wf(&self) -> bool {
        &&& 1 <= self.attempts <= MAX_RANDOM_NAME_ATTEMPTS
        &&& is_random_name_with_ext(self.candidate@, self.ext@)
    }

    pub closed spec fn spec_ext(&self) -> Seq<char> {
        self.ext@
    }

    pub closed spec fn spec_attempts(&self) -> u32 {
        self.attempts
    }

    pub closed spec fn spec_candidate(&self) -> Seq<char> {
        self.candidate@
    }

    pub closed spec fn spec_exhausted(&self) -> bool {
        self.exhausted
    }

    /// Starts a search with a first random candidate name.
    pub fn new(ext: &str) -> (s: Self)
        ensures
            s.wf(),
            s.spec_ext() == ext@,
            s.spec_attempts() == 1,
            !s.spec_exhausted(),
            is_random_name_with_ext(s.spec_candidate(), ext@),
    {
        let candidate = random_filename(ext);
        RandomNameSearch { ext: ext.to_owned(), candidate, attempts: 1, exhausted: false }
    }

    /// The candidate name to probe at the destination.
    pub fn candidate(&self) -> (c: &str)
        ensures
            c@ == self.spec_candidate(),
    {
        self.candidate.as_str()
    }

    /// Whether the search gave up after the bounded number of collisions;
    /// the kept candidate is then a best-effort name and the caller should
    /// warn, not abort.
    pub fn is_exhausted(&self) -> (b: bool)
        ensures
            b == self.spec_exhausted(),
    {
        self.exhausted
    }

    /// One search step: the caller reports whether the current candidate
    /// already exists at the destination. A free name ends the search; a
    /// collision draws a fresh candidate until the attempt bound, after
    /// which the search ends exhausted with the last name kept.
    pub fn advance(&mut self, exists_at_dest: bool) -> (done: bool)
        requires
            old(self).wf(),
        ensures
            final(self).wf(),
            final(self).spec_ext() == old(self).spec_ext(),
            done == (!exists_at_dest || old(self).spec_attempts() == MAX_RANDOM_NAME_ATTEMPTS),
            is_random_name_with_ext(final(self).spec_candidate(), old(self).spec_ext()),
            !exists_at_dest ==> *final(self) == *old(self),
            (exists_at_dest && old(self).spec_attempts() < MAX_RANDOM_NAME_ATTEMPTS) ==> {
                &&& final(self).spec_attempts() == old(self).spec_attempts() + 1
                &&& final(self).spec_exhausted() == old(self).spec_exhausted()
            },
            (exists_at_dest && old(self).spec_attempts() == MAX_RANDOM_NAME_ATTEMPTS) ==> {
                &&& final(self).spec_attempts() == old(self).spec_attempts()
                &&& final(self).spec_candidate() == old(self).spec_candidate()
                &&& final(self).spec_exhausted()
            },
    {
        if !exists_at_dest {
            true
        } else if self.attempts < MAX_RANDOM_NAME_ATTEMPTS {
            self.attempts = self.attempts + 1;
            let fresh = random_filename(self.ext.as_str());
            self.candidate = fresh;
            false
        } else {
            self.exhausted = true;
            true
        }
    }

    /// The random fallback never tries more names than its fixed bound.
    pub proof fn lemma_attempts_bounded(&self)
        requires
            self.wf(),
        ensures
            1 <= self.spec_attempts() <= MAX_RANDOM_NAME_ATTEMPTS,
    {
    }
}

} // verus!
