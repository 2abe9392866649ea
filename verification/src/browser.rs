//! Chrome for the sign-in: where it is installed, the throw-away profile
//! directories of the instances that run, and which downloads it refuses.

use vstd::prelude::*;
use crate::profile::{is_hyphenated_uuid, new_v4_string};
use crate::script::BLOCKED_EXTENSIONS;
use crate::text::{chars_end_with, chars_of, push_char, string_views, ends_with};

verus! {

/// Where Chrome (or a sibling build) may be installed, in order of preference.
pub const CHROME_CANDIDATE_PATHS: [&'static str; 4] = [
    "/Applications/Google Chrome.app/Contents/MacOS/Google Chrome",
    "/Applications/Google Chrome Beta.app/Contents/MacOS/Google Chrome Beta",
    "/Applications/Google Chrome Canary.app/Contents/MacOS/Google Chrome Canary",
    "/Applications/Chromium.app/Contents/MacOS/Chromium",
];

pub const CHROME_NOT_FOUND: &'static str = "Could not find Google Chrome. Install it from https://www.google.com/chrome/ and try again";

/// The command-line switches Chrome is started with.
pub const CHROME_ARGS: [&'static str; 5] = [
    "--no-sandbox",
    "--disable-setuid-sandbox",
    "--disable-dev-shm-usage",
    "--disable-gpu",
    "--window-size=1280,1024",
];

/// The first position of `true` in `present` at or after `k`, or `-1`.
pub open spec fn first_present(present: Seq<bool>, k: int) -> int
    decreases present.len() - k,
{
    if k < 0 || k >= present.len() {
        -1
    } else if present[k] {
        k
    } else {
        first_present(present, k + 1)
    }
}

/// Chrome's path for the given answers to "is candidate `i` a file": the
/// first candidate that is, else the error that Chrome is missing.
pub open spec fn chosen_chrome(present: Seq<bool>) -> Result<Seq<char>, Seq<char>> {
    let i = first_present(present, 0);
    if 0 <= i < 4 {
        Ok(CHROME_CANDIDATE_PATHS@[i]@)
    } else {
        Err(CHROME_NOT_FOUND@)
    }
}

/// `first_present` finds the first `true` at or after `k`, and `-1` only
/// when there is none.
proof fn lemma_first_present_finds(present: Seq<bool>, k: int)
    requires
        0 <= k,
    ensures
        first_present(present, k) == -1 ==> forall|j: int| k <= j < present.len() ==> !#[trigger] present[j],
        first_present(present, k) != -1 ==> k <= first_present(present, k) < present.len()
            && present[first_present(present, k)]
            && forall|j: int| k <= j < first_present(present, k) ==> !#[trigger] present[j],
    decreases present.len() - k,
{
    if k < present.len() && !present[k] {
        lemma_first_present_finds(present, k + 1);
    }
}

/// Each candidate is Chrome's path exactly when it is the first one found
/// to be a file, and Chrome is missing exactly when no candidate is.
pub proof fn lemma_chrome_choice(present: Seq<bool>, i: int)
    requires
        present.len() <= 4,
    ensures
        (0 <= i < present.len() && present[i] && forall|j: int| 0 <= j < i ==> !#[trigger] present[j])
            ==> chosen_chrome(present) == Ok::<Seq<char>, Seq<char>>(CHROME_CANDIDATE_PATHS@[i]@),
        chosen_chrome(present) is Err <==> forall|j: int| 0 <= j < present.len() ==> !#[trigger] present[j],
{
    lemma_first_present_finds(present, 0);
    let f = first_present(present, 0);
    if 0 <= i < present.len() && present[i] && forall|j: int| 0 <= j < i ==> !#[trigger] present[j] {
        if f != i {
            if f < i {
                assert(!present[f]);
            } else {
                assert(!present[i]);
            }
        }
    }
    if f != -1 {
        assert(present[f]);
    }
}

/// The paths probed for Chrome, in order.
pub fn chrome_candidate_paths() -> (v: Vec<&'static str>)
    ensures
        v@ == CHROME_CANDIDATE_PATHS@,
{
    let mut v: Vec<&'static str> = Vec::new();
    let mut k: usize = 0;
    while k < 4
        invariant
            k <= 4,
            v@ == CHROME_CANDIDATE_PATHS@.take(k as int),
        decreases 4 - k,
    {
        v.push(CHROME_CANDIDATE_PATHS[k]);
        k = k + 1;
        assert(v@ =~= CHROME_CANDIDATE_PATHS@.take(k as int));
    }
    assert(CHROME_CANDIDATE_PATHS@.take(4) =~= CHROME_CANDIDATE_PATHS@);
    v
}

/// Chrome's path, given the answers to "is candidate `i` a file", in the
/// order of `chrome_candidate_paths`: the first candidate that is, else the
/// error that Chrome is missing. Candidates after the first one found need
/// not be asked about.
pub fn find_chrome_executable(present: &Vec<bool>) -> (r: Result<String, String>)
    requires
        present@.len() <= 4,
    ensures
        match (r, chosen_chrome(present@)) {
            (Ok(p), Ok(q)) => p@ == q,
            (Err(e), Err(f)) => e@ == f,
            _ => false,
        },
        forall|i: int| 0 <= i < present@.len() && #[trigger] present@[i] && (forall|j: int| 0 <= j < i ==> !present@[j])
            ==> (r matches Ok(p) && p@ == CHROME_CANDIDATE_PATHS@[i]@),
        r is Err <==> forall|j: int| 0 <= j < present@.len() ==> !#[trigger] present@[j],
{
    proof {
        assert forall|i: int| 0 <= i < present@.len() && #[trigger] present@[i] && (forall|j: int| 0 <= j < i ==> !present@[j])
            implies chosen_chrome(present@) == Ok::<Seq<char>, Seq<char>>(CHROME_CANDIDATE_PATHS@[i]@) by {
            lemma_chrome_choice(present@, i);
        }
        lemma_chrome_choice(present@, 0);
    }
    let mut k: usize = 0;
    while k < present.len()
        invariant
            k <= present@.len() <= 4,
            first_present(present@, 0) == first_present(present@, k as int),
            forall|i: int| 0 <= i < present@.len() && #[trigger] present@[i] && (forall|j: int| 0 <= j < i ==> !present@[j])
                ==> chosen_chrome(present@) == Ok::<Seq<char>, Seq<char>>(CHROME_CANDIDATE_PATHS@[i]@),
            chosen_chrome(present@) is Err <==> forall|j: int| 0 <= j < present@.len() ==> !#[trigger] present@[j],
        decreases present.len() - k,
    {
        if present[k] {
            return Ok(String::from_str(CHROME_CANDIDATE_PATHS[k]));
        }
        k = k + 1;
    }
    Err(String::from_str(CHROME_NOT_FOUND))
}

pub const CHROME_DIR_PREFIX: &'static str = "drawbridge-vpn-chrome-";

/// A fresh name for a Chrome profile directory: the prefix and a random
/// UUID.
pub fn chrome_profile_dir_name() -> (s: String)
    ensures
        s@.len() == CHROME_DIR_PREFIX@.len() + 36,
        s@.subrange(0, CHROME_DIR_PREFIX@.len() as int) == CHROME_DIR_PREFIX@,
        is_hyphenated_uuid(s@.subrange(CHROME_DIR_PREFIX@.len() as int, s@.len() as int)),
{
    let id = new_v4_string();
    let mut s = String::from_str(CHROME_DIR_PREFIX);
    s.append(id.as_str());
    assert(s@.subrange(0, CHROME_DIR_PREFIX@.len() as int) =~= CHROME_DIR_PREFIX@);
    assert(s@.subrange(CHROME_DIR_PREFIX@.len() as int, s@.len() as int) =~= id@);
    s
}

/// `dirs` without the entries equal to `d`, the others in their order.
pub open spec fn without_dir(dirs: Seq<Seq<char>>, d: Seq<char>) -> Seq<Seq<char>>
    decreases dirs.len(),
{
    if dirs.len() == 0 {
        seq![]
    } else if dirs.last() == d {
        without_dir(dirs.drop_last(), d)
    } else {
        without_dir(dirs.drop_last(), d).push(dirs.last())
    }
}

/// The profile directories of the Chrome instances that run, so that they
/// can be killed and removed when the window closes.
pub struct BrowserDirs {
    pub dirs: Vec<String>,
}

impl BrowserDirs {
    /// No directory registered.
    pub fn new() -> (r: Self)
        ensures
            r.dirs@.len() == 0,
    {
        BrowserDirs { dirs: Vec::new() }
    }

    /// Records the profile directory of a Chrome being started.
    pub fn register_chrome_dir(&mut self, dir: String)
        ensures
            string_views(final(self).dirs@) == string_views(old(self).dirs@).push(dir@),
    {
        let ghost before = string_views(self.dirs@);
        self.dirs.push(dir);
        assert(string_views(self.dirs@) =~= before.push(dir@));
    }

    /// Forgets a profile directory, every entry of it.
    pub fn unregister_chrome_dir(&mut self, dir: &str)
        ensures
            string_views(final(self).dirs@) == without_dir(string_views(old(self).dirs@), dir@),
    {
        let mut kept: Vec<String> = Vec::new();
        let mut i: usize = 0;
        while i < self.dirs.len()
            invariant
                i <= self.dirs@.len(),
                self.dirs@ == old(self).dirs@,
                string_views(kept@) == without_dir(string_views(self.dirs@).take(i as int), dir@),
            decreases self.dirs.len() - i,
        {
            let ghost before = string_views(kept@);
            assert(string_views(self.dirs@).take(i + 1).drop_last() =~= string_views(self.dirs@).take(i as int));
            assert(string_views(self.dirs@).take(i + 1).last() == self.dirs@[i as int]@);
            if !crate::text::str_eq(self.dirs[i].as_str(), dir) {
                kept.push(self.dirs[i].clone());
                assert(string_views(kept@) =~= before.push(self.dirs@[i as int]@));
            }
            i = i + 1;
        }
        assert(string_views(self.dirs@).take(self.dirs@.len() as int) =~= string_views(self.dirs@));
        self.dirs = kept;
    }

    /// Hands out every registered directory, oldest first, and forgets them.
    pub fn take_all(&mut self) -> (r: Vec<String>)
        ensures
            r@ == old(self).dirs@,
            final(self).dirs@.len() == 0,
    {
        let mut taken: Vec<String> = Vec::new();
        std::mem::swap(&mut taken, &mut self.dirs);
        taken
    }
}

/// A sequence with one more entry holds what it held and the new entry.
proof fn lemma_push_contains(s: Seq<Seq<char>>, a: Seq<char>, x: Seq<char>)
    ensures
        s.push(a).contains(x) <==> (s.contains(x) || a == x),
{
    if s.contains(x) {
        let k = choose|k: int| 0 <= k < s.len() && s[k] == x;
        assert(s.push(a)[k] == x);
    }
    if a == x {
        assert(s.push(a)[s.len() as int] == x);
    }
    if s.push(a).contains(x) {
        let k = choose|k: int| 0 <= k < s.push(a).len() && s.push(a)[k] == x;
        if k < s.len() {
            assert(s[k] == x);
        }
    }
}

/// After forgetting `d`, the registry holds exactly the other directories
/// it held before.
pub proof fn lemma_unregister_keeps_others(dirs: Seq<Seq<char>>, d: Seq<char>, x: Seq<char>)
    ensures
        without_dir(dirs, d).contains(x) <==> (dirs.contains(x) && x != d),
    decreases dirs.len(),
{
    if dirs.len() > 0 {
        let r = dirs.drop_last();
        lemma_unregister_keeps_others(r, d, x);
        assert(r.push(dirs.last()) =~= dirs);
        lemma_push_contains(r, dirs.last(), x);
        if dirs.last() != d {
            lemma_push_contains(without_dir(r, d), dirs.last(), x);
        }
    }
}

/// Forgetting a directory right after registering it leaves the registry
/// as forgetting it alone would.
pub proof fn lemma_unregister_undoes_register(dirs: Seq<Seq<char>>, d: Seq<char>)
    ensures
        without_dir(dirs.push(d), d) == without_dir(dirs, d),
{
    assert(dirs.push(d).drop_last() =~= dirs);
}

/// A lower-cased address: `str::to_lowercase` applies Unicode's
/// lower-case mapping to each character.
pub uninterp spec fn lowercase_of(s: Seq<char>) -> Seq<char>;

/// `str::to_lowercase`. Unicode's case tables decide the result, which is
/// a function of the text alone and is given a name.
#[verifier::external_body]
fn to_lowercase(s: &str) -> (r: String)
    ensures
        r@ == lowercase_of(s@),
{
    s.to_lowercase()
}

/// An address ends in one of the blocked extensions, after a dot.
pub open spec fn has_blocked_extension(lower: Seq<char>) -> bool {
    exists|i: int| 0 <= i < BLOCKED_EXTENSIONS@.len() && ends_with(lower, seq!['.'] + (#[trigger] BLOCKED_EXTENSIONS@[i])@)
}

/// Whether an already lower-cased address ends in a blocked extension.
pub fn ends_with_blocked_extension(lower: &str) -> (r: bool)
    ensures
        r == has_blocked_extension(lower@),
{
    let url = chars_of(lower);
    let mut i: usize = 0;
    while i < BLOCKED_EXTENSIONS.len()
        invariant
            i <= BLOCKED_EXTENSIONS@.len(),
            url@ == lower@,
            forall|j: int| 0 <= j < i ==> !ends_with(lower@, seq!['.'] + (#[trigger] BLOCKED_EXTENSIONS@[j])@),
        decreases BLOCKED_EXTENSIONS.len() - i,
    {
        let mut dotted = String::new();
        push_char(&mut dotted, '.');
        dotted.append(BLOCKED_EXTENSIONS[i]);
        let suffix = chars_of(dotted.as_str());
        if chars_end_with(&url, &suffix) {
            return true;
        }
        i = i + 1;
    }
    false
}

/// Whether Chrome should refuse a request: its address, lower-cased, ends
/// in a blocked extension.
pub fn should_block_request(url: &str) -> (r: bool)
    ensures
        r == has_blocked_extension(lowercase_of(url@)),
{
    let lower = to_lowercase(url);
    ends_with_blocked_extension(lower.as_str())
}

} // verus!
