use vstd::prelude::*;
use vstd::string::*;
use crate::error::KhoraError;
use crate::text::{dec, lower, push_dec};

verus! {

/// The operating systems with their own Chrome install locations.
#[derive(Clone, Copy, Debug, PartialEq, Eq, Structural)]
pub enum Platform {
    MacOs,
    Linux,
    Windows,
    Other,
}

/// The texts of a list of string slices.
pub open spec fn texts(v: Seq<&'static str>) -> Seq<Seq<char>> {
    v.map_values(|s: &'static str| s@)
}

/// Where Chrome and its relatives are installed on macOS and Linux, in the
/// order they are tried. Windows locations depend on the program directories
/// (see `windows_chrome_suffixes`); other systems have none.
pub open spec fn platform_candidates_spec(platform: Platform) -> Seq<Seq<char>> {
    match platform {
        Platform::MacOs => seq![
            "/Applications/Google Chrome.app/Contents/MacOS/Google Chrome"@,
            "/Applications/Chromium.app/Contents/MacOS/Chromium"@,
            "/Applications/Google Chrome Canary.app/Contents/MacOS/Google Chrome Canary"@,
            "/Applications/Brave Browser.app/Contents/MacOS/Brave Browser"@,
            "/Applications/Microsoft Edge.app/Contents/MacOS/Microsoft Edge"@,
        ],
        Platform::Linux => seq![
            "/usr/bin/google-chrome"@,
            "/usr/bin/google-chrome-stable"@,
            "/usr/bin/chromium"@,
            "/usr/bin/chromium-browser"@,
            "/snap/bin/chromium"@,
        ],
        _ => Seq::empty(),
    }
}

/// The fixed Chrome install locations of `platform` (see
/// `platform_candidates_spec`).
pub fn platform_chrome_candidates(platform: Platform) -> (r: Vec<&'static str>)
    ensures
        texts(r@) == platform_candidates_spec(platform),
{
    let r: Vec<&'static str> = match platform {
        Platform::MacOs => vec![
            "/Applications/Google Chrome.app/Contents/MacOS/Google Chrome",
            "/Applications/Chromium.app/Contents/MacOS/Chromium",
            "/Applications/Google Chrome Canary.app/Contents/MacOS/Google Chrome Canary",
            "/Applications/Brave Browser.app/Contents/MacOS/Brave Browser",
            "/Applications/Microsoft Edge.app/Contents/MacOS/Microsoft Edge",
        ],
        Platform::Linux => vec![
            "/usr/bin/google-chrome",
            "/usr/bin/google-chrome-stable",
            "/usr/bin/chromium",
            "/usr/bin/chromium-browser",
            "/snap/bin/chromium",
        ],
        _ => Vec::new(),
    };
    assert(texts(r@) =~= platform_candidates_spec(platform));
    r
}

/// The Windows install locations below each program directory
/// (`ProgramFiles`, `ProgramFiles(x86)`, `LocalAppData`), in the order tried.
pub fn windows_chrome_suffixes() -> (r: Vec<&'static str>)
    ensures
        texts(r@) == seq![
            "Google\\Chrome\\Application\\chrome.exe"@,
            "Microsoft\\Edge\\Application\\msedge.exe"@,
            "BraveSoftware\\Brave-Browser\\Application\\brave.exe"@,
        ],
{
    let r = vec![
        "Google\\Chrome\\Application\\chrome.exe",
        "Microsoft\\Edge\\Application\\msedge.exe",
        "BraveSoftware\\Brave-Browser\\Application\\brave.exe",
    ];
    assert(texts(r@) =~= seq![
        "Google\\Chrome\\Application\\chrome.exe"@,
        "Microsoft\\Edge\\Application\\msedge.exe"@,
        "BraveSoftware\\Brave-Browser\\Application\\brave.exe"@,
    ]);
    r
}

/// The binary names looked up on `PATH` when no install location holds Chrome.
pub fn chrome_binary_names() -> (r: Vec<&'static str>)
    ensures
        texts(r@) == seq![
            "google-chrome"@,
            "google-chrome-stable"@,
            "chromium"@,
            "chromium-browser"@,
            "chrome"@,
        ],
{
    let r = vec!["google-chrome", "google-chrome-stable", "chromium", "chromium-browser", "chrome"];
    assert(texts(r@) =~= seq![
        "google-chrome"@,
        "google-chrome-stable"@,
        "chromium"@,
        "chromium-browser"@,
        "chrome"@,
    ]);
    r
}

/// Whether a file or directory exists at `path` (`std::path::Path::exists`).
/// It depends on the file system, so nothing is stated about the answer.
#[verifier::external_body]
fn path_exists(path: &str) -> bool {
    std::path::Path::new(path).exists()
}

/// Whether `s` holds no path separator (`/` or `\`).
pub open spec fn no_separator(s: Seq<char>) -> bool {
    forall|i: int| 0 <= i < s.len() ==> s[i] != '/' && s[i] != '\\'
}

/// Whether `name` occurs in `path`, ASCII letter case aside.
pub open spec fn names_file(path: Seq<char>, name: Seq<char>) -> bool {
    exists|i: int|
        0 <= i && i + name.len() <= path.len() && #[trigger] lower(path).subrange(
            i,
            i + name.len(),
        ) == lower(name)
}

/// The first executable called `name` on `PATH` (`which::which`), when there
/// is one whose path is valid Unicode. Which one is found depends on the
/// environment and the file system, and that is not stated. What is stated:
/// for a bare name (no separator) the crate joins a `PATH` directory with the
/// name (on Windows it then appends a `PATHEXT` extension and takes the file
/// name's letter case from the directory entry), so the path holds the name,
/// ASCII case aside.
#[verifier::external_body]
fn which_binary(name: &str) -> (r: Option<String>)
    ensures
        no_separator(name@) ==> (r matches Some(p) ==> names_file(p@, name@)),
{
    which::which(name).ok().and_then(|p| p.into_os_string().into_string().ok())
}

/// The first candidate whose `present` flag is set.
pub open spec fn first_present_spec(cands: Seq<Seq<char>>, present: Seq<bool>) -> Option<Seq<char>>
    decreases cands.len(),
{
    if cands.len() == 0 || present.len() == 0 {
        None
    } else if present[0] {
        Some(cands[0])
    } else {
        first_present_spec(cands.drop_first(), present.drop_first())
    }
}

/// The texts of a list of strings.
pub open spec fn string_texts(v: Seq<String>) -> Seq<Seq<char>> {
    v.map_values(|s: String| s@)
}

/// The first candidate location that exists, given for each candidate whether
/// it exists.
pub fn first_present(candidates: &Vec<String>, present: &Vec<bool>) -> (r: Option<String>)
    requires
        present@.len() == candidates@.len(),
    ensures
        match r {
            Some(p) => first_present_spec(string_texts(candidates@), present@) == Some(p@),
            None => first_present_spec(string_texts(candidates@), present@) is None,
        },
{
    let mut i: usize = 0;
    assert(string_texts(candidates@).skip(0) =~= string_texts(candidates@));
    assert(present@.skip(0) =~= present@);
    while i < candidates.len()
        invariant
            i <= candidates@.len(),
            present@.len() == candidates@.len(),
            first_present_spec(string_texts(candidates@), present@) == first_present_spec(
                string_texts(candidates@).skip(i as int),
                present@.skip(i as int),
            ),
        decreases candidates.len() - i,
    {
        assert(string_texts(candidates@).skip(i as int)[0] == candidates@[i as int]@);
        assert(present@.skip(i as int)[0] == present@[i as int]);
        if present[i] {
            return Some(candidates[i].clone());
        }
        assert(string_texts(candidates@).skip(i as int).drop_first() =~= string_texts(
            candidates@,
        ).skip(i + 1));
        assert(present@.skip(i as int).drop_first() =~= present@.skip(i + 1));
        i = i + 1;
    }
    None
}

/// The first of `candidates` that exists on disk, if any.
pub fn platform_chrome_path(candidates: &Vec<String>) -> (r: Option<String>)
    ensures
        r matches Some(p) ==> string_texts(candidates@).contains(p@),
{
    let mut present: Vec<bool> = Vec::new();
    let mut i: usize = 0;
    while i < candidates.len()
        invariant
            i <= candidates@.len(),
            present@.len() == i,
        decreases candidates.len() - i,
    {
        present.push(path_exists(candidates[i].as_str()));
        i = i + 1;
    }
    let r = first_present(candidates, &present);
    proof {
        lemma_first_present_member(string_texts(candidates@), present@);
    }
    r
}

/// A candidate picked by `first_present_spec` is one of the candidates.
pub proof fn lemma_first_present_member(cands: Seq<Seq<char>>, present: Seq<bool>)
    ensures
        first_present_spec(cands, present) matches Some(p) ==> cands.contains(p),
    decreases cands.len(),
{
    if cands.len() > 0 && present.len() > 0 {
        if present[0] {
            assert(cands[0] == cands[0]);
        } else {
            lemma_first_present_member(cands.drop_first(), present.drop_first());
            if let Some(p) = first_present_spec(cands.drop_first(), present.drop_first()) {
                let k = choose|k: int| 0 <= k < cands.drop_first().len() && cands.drop_first()[k] == p;
                assert(cands[k + 1] == p);
            }
        }
    }
}

/// Where Chrome is, from what was found: `CHROME_PATH` when it is set and
/// exists, else the first install location found, else the first binary found
/// on `PATH`, else `ChromeNotFound`.
pub fn select_chrome(
    env_path: Option<String>,
    env_exists: bool,
    installed: Option<String>,
    on_path: &Vec<Option<String>>,
) -> (r: Result<String, KhoraError>)
    ensures
        match env_path {
            Some(p) if env_exists => r == Ok::<String, KhoraError>(p),
            _ => match installed {
                Some(p) => r == Ok::<String, KhoraError>(p),
                None => match first_some(on_path@) {
                    Some(p) => r matches Ok(q) && q@ == p@,
                    None => r matches Err(KhoraError::ChromeNotFound),
                },
            },
        },
{
    if let Some(p) = &env_path {
        if env_exists {
            return Ok(p.clone());
        }
    }
    if let Some(p) = &installed {
        return Ok(p.clone());
    }
    let mut i: usize = 0;
    assert(on_path@.skip(0) =~= on_path@);
    while i < on_path.len()
        invariant
            i <= on_path@.len(),
            !(env_path is Some && env_exists),
            installed is None,
            first_some(on_path@) == first_some(on_path@.skip(i as int)),
        decreases on_path.len() - i,
    {
        assert(on_path@.skip(i as int)[0] == on_path@[i as int]);
        assert(on_path@.skip(i as int).drop_first() =~= on_path@.skip(i + 1));
        if let Some(p) = &on_path[i] {
            return Ok(p.clone());
        }
        i = i + 1;
    }
    Err(KhoraError::ChromeNotFound)
}

/// The first `Some` of a list.
pub open spec fn first_some(v: Seq<Option<String>>) -> Option<String>
    decreases v.len(),
{
    if v.len() == 0 {
        None
    } else {
        match v[0] {
            Some(p) => Some(p),
            None => first_some(v.drop_first()),
        }
    }
}

/// The names looked up on `PATH` (see `chrome_binary_names`).
pub open spec fn binary_names() -> Seq<Seq<char>> {
    seq!["google-chrome"@, "google-chrome-stable"@, "chromium"@, "chromium-browser"@, "chrome"@]
}

/// None of the names looked up on `PATH` holds a path separator.
proof fn lemma_binary_names_plain()
    ensures
        forall|k: int| 0 <= k < binary_names().len() ==> no_separator(#[trigger] binary_names()[k]),
{
    reveal_strlit("google-chrome");
    reveal_strlit("google-chrome-stable");
    reveal_strlit("chromium");
    reveal_strlit("chromium-browser");
    reveal_strlit("chrome");
    assert(no_separator("google-chrome"@));
    assert(no_separator("google-chrome-stable"@));
    assert(no_separator("chromium"@));
    assert(no_separator("chromium-browser"@));
    assert(no_separator("chrome"@));
}

/// A `Some` picked by `first_some` is an element of the list.
proof fn lemma_first_some_member(v: Seq<Option<String>>)
    ensures
        first_some(v) matches Some(p) ==> exists|j: int| 0 <= j < v.len() && v[j] == Some(p),
    decreases v.len(),
{
    if v.len() > 0 {
        lemma_first_some_member(v.drop_first());
        if v[0] is None {
            if let Some(p) = first_some(v.drop_first()) {
                let j = choose|j: int| 0 <= j < v.drop_first().len() && v.drop_first()[j] == Some(p);
                assert(v[j + 1] == Some(p));
            }
        }
    }
}

/// Finds the Chrome binary: `env_path` (the `CHROME_PATH` setting) when that
/// file exists, else the first of `candidates` (the platform's install
/// locations) that exists, else the first of `chrome_binary_names` found on
/// `PATH`. What exists is up to the file system: the result is `env_path`, one
/// of the candidates, or a path holding one of the binary names; failure is
/// `ChromeNotFound`.
pub fn find_chrome(env_path: Option<String>, candidates: &Vec<String>) -> (r: Result<String, KhoraError>)
    ensures
        r is Err ==> r matches Err(KhoraError::ChromeNotFound),
        r matches Ok(p) ==> (env_path matches Some(e) && e@ == p@) || string_texts(
            candidates@,
        ).contains(p@) || exists|k: int|
            0 <= k < binary_names().len() && #[trigger] names_file(p@, binary_names()[k]),
{
    let env_exists = match &env_path {
        Some(p) => path_exists(p.as_str()),
        None => false,
    };
    let installed = platform_chrome_path(candidates);
    let names = chrome_binary_names();
    proof {
        lemma_binary_names_plain();
        assert(texts(names@) =~= binary_names());
    }
    let mut on_path: Vec<Option<String>> = Vec::new();
    let mut i: usize = 0;
    while i < names.len()
        invariant
            i <= names@.len(),
            texts(names@) == binary_names(),
            forall|k: int| 0 <= k < binary_names().len() ==> no_separator(#[trigger] binary_names()[k]),
            on_path@.len() == i,
            forall|j: int|
                0 <= j < i ==> (#[trigger] on_path@[j] matches Some(p) ==> names_file(
                    p@,
                    binary_names()[j],
                )),
        decreases names.len() - i,
    {
        assert(texts(names@)[i as int] == names@[i as int]@);
        assert(no_separator(binary_names()[i as int]));
        on_path.push(which_binary(names[i]));
        i = i + 1;
    }
    let ghost env_g = env_path;
    let r = select_chrome(env_path, env_exists, installed, &on_path);
    proof {
        lemma_first_some_member(on_path@);
        let ghost rg = r;
        if let Ok(q) = rg {
            if !(env_g matches Some(e) && e@ == q@) && !string_texts(candidates@).contains(q@) {
                if let Some(p) = first_some(on_path@) {
                    let j = choose|j: int| 0 <= j < on_path@.len() && on_path@[j] == Some(p);
                    assert(on_path@[j] matches Some(x) ==> names_file(x@, binary_names()[j]));
                    assert(names_file(q@, binary_names()[j]));
                }
            }
        }
    }
    r
}

/// The extra switches every launched Chrome gets, in order: no extensions,
/// default apps, first-run or default-browser prompts, and no throttling of
/// background timers or occluded windows.
pub fn launch_flags() -> (r: Vec<&'static str>)
    ensures
        texts(r@) == seq![
            "--disable-extensions"@,
            "--disable-default-apps"@,
            "--no-first-run"@,
            "--no-default-browser-check"@,
            "--disable-background-timer-throttling"@,
            "--disable-backgrounding-occluded-windows"@,
        ],
{
    let r = vec![
        "--disable-extensions",
        "--disable-default-apps",
        "--no-first-run",
        "--no-default-browser-check",
        "--disable-background-timer-throttling",
        "--disable-backgrounding-occluded-windows",
    ];
    assert(texts(r@) =~= seq![
        "--disable-extensions"@,
        "--disable-default-apps"@,
        "--no-first-run"@,
        "--no-default-browser-check"@,
        "--disable-background-timer-throttling"@,
        "--disable-backgrounding-occluded-windows"@,
    ]);
    r
}

/// The name of the private user data directory made for a Chrome launched at
/// `nanos` nanoseconds after the Unix epoch: `khora-chrome-<nanos>`.
pub fn data_dir_name(nanos: u128) -> (r: String)
    ensures
        r@ == "khora-chrome-"@ + dec(nanos as nat),
{
    let mut r = String::from_str("khora-chrome-");
    push_dec(&mut r, nanos);
    r
}

} // verus!
