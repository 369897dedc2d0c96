//! Browser cookie stores: the jar, the browsers, and the readers of each
//! store format.

pub mod chrome;
pub mod crypto;
pub mod firefox;
pub mod jar;
pub mod platform;
pub mod safari;

pub use jar::CookieJar;

use vstd::prelude::*;

use jar::{lemma_map_values_nonempty, pairs_to_map, values_nonempty, CookiePair};
use platform::{chromium_cookie_value, linux, macos, windows, Platform};
use crate::text::str_eq;

verus! {

/// The browsers whose cookie stores the widget reads.
#[derive(Clone, Copy, Debug, PartialEq, Eq, Hash, Structural)]
pub enum BrowserKind {
    Firefox,
    Chrome,
    Brave,
    Edge,
    /// Safari (macOS): its cookies are in a binary cookie file.
    Safari,
}

/// Why reading a browser's cookies failed.
#[derive(Debug)]
pub enum CookieError {
    /// The browser's data directory does not exist.
    NoBrowserDir,
    /// No cookie database was found in the data directory.
    NoCookieDb,
    /// The operating system refused to let the store be read.
    PermissionDenied,
    /// The SQLite store could not be queried; the driver's message.
    Sqlite(String),
    /// A file could not be read or copied; the system's message.
    Io(String),
    /// An encrypted cookie could not be decrypted; the reason.
    Decrypt(String),
}


impl BrowserKind {
    /// The browser's command-line name.
    pub open spec fn name_text(self) -> Seq<char> {
        match self {
            BrowserKind::Firefox => "firefox"@,
            BrowserKind::Chrome => "chrome"@,
            BrowserKind::Brave => "brave"@,
            BrowserKind::Edge => "edge"@,
            BrowserKind::Safari => "safari"@,
        }
    }

    /// The browser's command-line name (`firefox`, `chrome`, `brave`,
    /// `edge`, `safari`).
    pub fn name(&self) -> (r: &'static str)
        ensures
            r@ == self.name_text(),
    {
        match self {
            BrowserKind::Firefox => "firefox",
            BrowserKind::Chrome => "chrome",
            BrowserKind::Brave => "brave",
            BrowserKind::Edge => "edge",
            BrowserKind::Safari => "safari",
        }
    }

    /// The browser whose command-line name is `s`.
    pub fn from_name(s: &str) -> (r: Option<BrowserKind>)
        ensures
            match r {
                Some(b) => b.name_text() == s@,
                None => forall|b: BrowserKind| b.name_text() != s@,
            },
    {
        if str_eq(s, "firefox") {
            Some(BrowserKind::Firefox)
        } else if str_eq(s, "chrome") {
            Some(BrowserKind::Chrome)
        } else if str_eq(s, "brave") {
            Some(BrowserKind::Brave)
        } else if str_eq(s, "edge") {
            Some(BrowserKind::Edge)
        } else if str_eq(s, "safari") {
            Some(BrowserKind::Safari)
        } else {
            None
        }
    }

    /// Distinct browsers have distinct command-line names, so a name names
    /// exactly one browser.
    pub proof fn lemma_names_distinct(a: BrowserKind, b: BrowserKind)
        ensures
            a.name_text() == b.name_text() ==> a == b,
    {
        reveal_strlit("firefox");
        reveal_strlit("chrome");
        reveal_strlit("brave");
        reveal_strlit("edge");
        reveal_strlit("safari");
        if a != b {
            match (a, b) {
                (BrowserKind::Firefox, _) => assert(a.name_text()[0] != b.name_text()[0] || a.name_text().len() != b.name_text().len()),
                (BrowserKind::Chrome, BrowserKind::Brave) => assert(a.name_text().len() != b.name_text().len()),
                (BrowserKind::Chrome, _) => assert(a.name_text()[0] != b.name_text()[0]),
                (BrowserKind::Brave, _) => assert(a.name_text()[0] != b.name_text()[0] || a.name_text().len() != b.name_text().len()),
                (BrowserKind::Edge, _) => assert(a.name_text()[0] != b.name_text()[0]),
                (BrowserKind::Safari, _) => assert(a.name_text()[0] != b.name_text()[0] || a.name_text().len() != b.name_text().len()),
            }
        }
    }

    /// The browser's display name.
    pub fn label(&self) -> (r: &'static str)
        ensures
            r@ == match self {
                BrowserKind::Firefox => "Firefox"@,
                BrowserKind::Chrome => "Chrome"@,
                BrowserKind::Brave => "Brave"@,
                BrowserKind::Edge => "Edge"@,
                BrowserKind::Safari => "Safari"@,
            },
    {
        match self {
            BrowserKind::Firefox => "Firefox",
            BrowserKind::Chrome => "Chrome",
            BrowserKind::Brave => "Brave",
            BrowserKind::Edge => "Edge",
            BrowserKind::Safari => "Safari",
        }
    }

    /// The browser's place in listings: Firefox, Chrome, Brave, Edge,
    /// Safari.
    pub open spec fn rank(self) -> int {
        match self {
            BrowserKind::Firefox => 0,
            BrowserKind::Chrome => 1,
            BrowserKind::Brave => 2,
            BrowserKind::Edge => 3,
            BrowserKind::Safari => 4,
        }
    }

    /// Whether the browser keeps its cookies in Firefox's store.
    pub fn uses_firefox_store(&self) -> (r: bool)
        ensures
            r == (*self == BrowserKind::Firefox),
    {
        match self {
            BrowserKind::Firefox => true,
            _ => false,
        }
    }

    /// Whether the browser keeps its cookies in Safari's binary cookie file.
    pub fn uses_safari_file(&self) -> (r: bool)
        ensures
            r == (*self == BrowserKind::Safari),
    {
        match self {
            BrowserKind::Safari => true,
            _ => false,
        }
    }

    /// Whether the browser keeps its cookies in a Chromium store (Chrome,
    /// Brave, Edge).
    pub fn uses_chromium_store(&self) -> (r: bool)
        ensures
            r == (*self == BrowserKind::Chrome || *self == BrowserKind::Brave || *self
                == BrowserKind::Edge),
    {
        match self {
            BrowserKind::Chrome | BrowserKind::Brave | BrowserKind::Edge => true,
            _ => false,
        }
    }
}

impl CookieError {
    /// The error as shown to the user.
    pub open spec fn message_text(&self) -> Seq<char> {
        match self {
            CookieError::NoBrowserDir => "Browser directory not found"@,
            CookieError::NoCookieDb => "No cookie database found"@,
            CookieError::PermissionDenied => "Permission denied"@,
            CookieError::Sqlite(e) => "SQLite error: "@ + e@,
            CookieError::Io(e) => "IO error: "@ + e@,
            CookieError::Decrypt(e) => "Decrypt error: "@ + e@,
        }
    }

    /// The error as shown to the user.
    pub fn message(&self) -> (r: String)
        ensures
            r@ == self.message_text(),
    {
        match self {
            CookieError::NoBrowserDir => String::from_str("Browser directory not found"),
            CookieError::NoCookieDb => String::from_str("No cookie database found"),
            CookieError::PermissionDenied => String::from_str("Permission denied"),
            CookieError::Sqlite(e) => String::from_str("SQLite error: ").concat(e.as_str()),
            CookieError::Io(e) => String::from_str("IO error: ").concat(e.as_str()),
            CookieError::Decrypt(e) => String::from_str("Decrypt error: ").concat(e.as_str()),
        }
    }
}

/// The candidate at `i` has the latest modification time, and every later
/// candidate an earlier one: it is the one a stable sort by time leaves
/// last.
pub open spec fn is_newest(candidates: Seq<(String, i128)>, i: int) -> bool {
    &&& 0 <= i < candidates.len()
    &&& forall|j: int| 0 <= j < candidates.len() ==> candidates[j].1 <= candidates[i].1
    &&& forall|j: int| i < j < candidates.len() ==> candidates[j].1 < candidates[i].1
}

/// Picks the most recently modified of the candidate paths (each given
/// with its modification time); of equally recent ones, the last.
pub fn newest_path(candidates: &Vec<(String, i128)>) -> (r: Option<String>)
    ensures
        r is None == (candidates@.len() == 0),
        r matches Some(p) ==> exists|i: int| is_newest(candidates@, i) && p == candidates@[i].0,
{
    if candidates.len() == 0 {
        return None;
    }
    let mut best: usize = 0;
    let mut i: usize = 1;
    while i < candidates.len()
        invariant
            1 <= i <= candidates.len(),
            best < i,
            forall|j: int| 0 <= j < i ==> candidates@[j].1 <= candidates@[best as int].1,
            forall|j: int| best < j < i ==> candidates@[j].1 < candidates@[best as int].1,
        decreases candidates.len() - i,
    {
        if candidates[i].1 >= candidates[best].1 {
            best = i;
        }
        i = i + 1;
    }
    assert(is_newest(candidates@, best as int));
    Some(candidates[best].0.clone())
}

/// Whether the jar holds a session on the usage site (a `sessionKey`
/// cookie).
pub fn has_session(jar: &CookieJar) -> (r: bool)
    ensures
        r == jar@.contains_key("sessionKey"@),
{
    jar.contains_key("sessionKey")
}

/// An optional text as plain characters.
pub open spec fn text_view(o: Option<&str>) -> Option<Seq<char>> {
    match o {
        Some(s) => Some(s@),
        None => None,
    }
}

/// Firefox's default profiles directory on `platform`, from the home
/// directory (Linux, macOS) or `%APPDATA%` (Windows).
pub open spec fn firefox_default_for(
    platform: Platform,
    home: Option<Seq<char>>,
    appdata: Option<Seq<char>>,
) -> Option<Seq<char>> {
    match platform {
        Platform::Linux => match home {
            Some(h) => Some(linux::firefox_dir(h)),
            None => None,
        },
        Platform::MacOs => match home {
            Some(h) => Some(macos::firefox_dir(h)),
            None => None,
        },
        Platform::Windows => match appdata {
            Some(a) => Some(windows::firefox_dir(a)),
            None => None,
        },
    }
}

/// The candidate data directories of the Chromium browser `browser` on
/// `platform`, from the home directory (Linux, macOS) or `%LOCALAPPDATA%`
/// (Windows); none for the other browsers.
pub open spec fn chromium_dirs_for(
    platform: Platform,
    browser: BrowserKind,
    home: Option<Seq<char>>,
    local_appdata: Option<Seq<char>>,
) -> Seq<Seq<char>> {
    match platform {
        Platform::Linux => match home {
            Some(h) => match browser {
                BrowserKind::Chrome => linux::chrome_dirs(h),
                BrowserKind::Brave => linux::brave_dirs(h),
                BrowserKind::Edge => linux::edge_dirs(h),
                _ => seq![],
            },
            None => seq![],
        },
        Platform::MacOs => match home {
            Some(h) => match browser {
                BrowserKind::Chrome => macos::chrome_dirs(h),
                BrowserKind::Brave => macos::brave_dirs(h),
                BrowserKind::Edge => macos::edge_dirs(h),
                _ => seq![],
            },
            None => seq![],
        },
        Platform::Windows => match local_appdata {
            Some(l) => match browser {
                BrowserKind::Chrome => windows::chrome_dirs(l),
                BrowserKind::Brave => windows::brave_dirs(l),
                BrowserKind::Edge => windows::edge_dirs(l),
                _ => seq![],
            },
            None => seq![],
        },
    }
}

/// No entry of `a` is an entry of `b`.
pub open spec fn no_shared(a: Seq<Seq<char>>, b: Seq<Seq<char>>) -> bool {
    forall|i: int, j: int| 0 <= i < a.len() && 0 <= j < b.len() ==> a[i] != b[j]
}

proof fn lemma_joined_distinct(base: Seq<char>, x: Seq<char>, y: Seq<char>, w: bool)
    requires
        x.len() != y.len(),
    ensures
        platform::joined(base, x, w) != platform::joined(base, y, w),
{
    assert(platform::joined(base, x, w).len() != platform::joined(base, y, w).len());
}

proof fn lemma_rel_lists_disjoint(base: Seq<char>, w: bool, xs: Seq<Seq<char>>, ys: Seq<Seq<char>>)
    requires
        forall|i: int, j: int| 0 <= i < xs.len() && 0 <= j < ys.len() ==> #[trigger] xs[i].len() != #[trigger] ys[j].len(),
    ensures
        no_shared(
            xs.map_values(|x: Seq<char>| platform::joined(base, x, w)),
            ys.map_values(|y: Seq<char>| platform::joined(base, y, w)),
        ),
{
    let a = xs.map_values(|x: Seq<char>| platform::joined(base, x, w));
    let b = ys.map_values(|y: Seq<char>| platform::joined(base, y, w));
    assert forall|i: int, j: int| 0 <= i < a.len() && 0 <= j < b.len() implies a[i] != b[j] by {
        assert(xs[i].len() != ys[j].len());
        lemma_joined_distinct(base, xs[i], ys[j], w);
    }
}

/// The browsers do not share data directories: on each platform, no
/// default directory of Chrome, Brave or Edge is one of another of them,
/// so each browser reads only its own cookies.
pub proof fn law_default_dirs_not_shared(h: Seq<char>, l: Seq<char>)
    ensures
        no_shared(linux::chrome_dirs(h), linux::brave_dirs(h)),
        no_shared(linux::chrome_dirs(h), linux::edge_dirs(h)),
        no_shared(linux::brave_dirs(h), linux::edge_dirs(h)),
        no_shared(macos::chrome_dirs(h), macos::brave_dirs(h)),
        no_shared(macos::chrome_dirs(h), macos::edge_dirs(h)),
        no_shared(macos::brave_dirs(h), macos::edge_dirs(h)),
        no_shared(windows::chrome_dirs(l), windows::brave_dirs(l)),
        no_shared(windows::chrome_dirs(l), windows::edge_dirs(l)),
        no_shared(windows::brave_dirs(l), windows::edge_dirs(l)),
{
    let linux_chrome = seq![".config/google-chrome"@, ".config/chromium"@, "snap/chromium/common/chromium"@, ".var/app/com.google.Chrome/config/google-chrome"@, ".var/app/org.chromium.Chromium/config/chromium"@];
    reveal_strlit(".config/google-chrome");
    reveal_strlit(".config/chromium");
    reveal_strlit("snap/chromium/common/chromium");
    reveal_strlit(".var/app/com.google.Chrome/config/google-chrome");
    reveal_strlit(".var/app/org.chromium.Chromium/config/chromium");
    assert(linux::chrome_dirs(h) =~= linux_chrome.map_values(|x: Seq<char>| platform::joined(h, x, false)));
    let linux_brave = seq![".config/BraveSoftware/Brave-Browser"@, "snap/brave/current/.config/BraveSoftware/Brave-Browser"@, ".var/app/com.brave.Browser/config/BraveSoftware/Brave-Browser"@];
    reveal_strlit(".config/BraveSoftware/Brave-Browser");
    reveal_strlit("snap/brave/current/.config/BraveSoftware/Brave-Browser");
    reveal_strlit(".var/app/com.brave.Browser/config/BraveSoftware/Brave-Browser");
    assert(linux::brave_dirs(h) =~= linux_brave.map_values(|x: Seq<char>| platform::joined(h, x, false)));
    let linux_edge = seq![".config/microsoft-edge"@];
    reveal_strlit(".config/microsoft-edge");
    assert(linux::edge_dirs(h) =~= linux_edge.map_values(|x: Seq<char>| platform::joined(h, x, false)));
    lemma_rel_lists_disjoint(h, false, linux_chrome, linux_brave);
    lemma_rel_lists_disjoint(h, false, linux_chrome, linux_edge);
    lemma_rel_lists_disjoint(h, false, linux_brave, linux_edge);
    let macos_chrome = seq!["Library/Application Support/Google/Chrome"@];
    reveal_strlit("Library/Application Support/Google/Chrome");
    assert(macos::chrome_dirs(h) =~= macos_chrome.map_values(|x: Seq<char>| platform::joined(h, x, false)));
    let macos_brave = seq!["Library/Application Support/BraveSoftware/Brave-Browser"@];
    reveal_strlit("Library/Application Support/BraveSoftware/Brave-Browser");
    assert(macos::brave_dirs(h) =~= macos_brave.map_values(|x: Seq<char>| platform::joined(h, x, false)));
    let macos_edge = seq!["Library/Application Support/Microsoft Edge"@];
    reveal_strlit("Library/Application Support/Microsoft Edge");
    assert(macos::edge_dirs(h) =~= macos_edge.map_values(|x: Seq<char>| platform::joined(h, x, false)));
    lemma_rel_lists_disjoint(h, false, macos_chrome, macos_brave);
    lemma_rel_lists_disjoint(h, false, macos_chrome, macos_edge);
    lemma_rel_lists_disjoint(h, false, macos_brave, macos_edge);
    let windows_chrome = seq!["Google/Chrome/User Data"@];
    reveal_strlit("Google/Chrome/User Data");
    assert(windows::chrome_dirs(l) =~= windows_chrome.map_values(|x: Seq<char>| platform::joined(l, x, true)));
    let windows_brave = seq!["BraveSoftware/Brave-Browser/User Data"@];
    reveal_strlit("BraveSoftware/Brave-Browser/User Data");
    assert(windows::brave_dirs(l) =~= windows_brave.map_values(|x: Seq<char>| platform::joined(l, x, true)));
    let windows_edge = seq!["Microsoft/Edge/User Data"@];
    reveal_strlit("Microsoft/Edge/User Data");
    assert(windows::edge_dirs(l) =~= windows_edge.map_values(|x: Seq<char>| platform::joined(l, x, true)));
    lemma_rel_lists_disjoint(l, true, windows_chrome, windows_brave);
    lemma_rel_lists_disjoint(l, true, windows_chrome, windows_edge);
    lemma_rel_lists_disjoint(l, true, windows_brave, windows_edge);
}

/// Where a browser's cookies are read from.
pub enum ReadPlan {
    /// Firefox: the profiles directory scanned for `cookies.sqlite`, or why
    /// there is none.
    Firefox(Result<String, CookieError>),
    /// Chrome, Brave, Edge: the data directories whose profiles are scanned
    /// for the newest cookie database (those that are not directories are
    /// skipped).
    Chromium(Vec<String>),
    /// Safari: the cookie files, of which the first that exists is read.
    Safari(Vec<String>),
}

/// The plain view of a list of paths.
pub open spec fn paths_view(v: Seq<String>) -> Seq<Seq<char>> {
    v.map_values(|p: String| p@)
}

fn chromium_default_dirs(
    platform: Platform,
    browser: BrowserKind,
    home: Option<&str>,
    local_appdata: Option<&str>,
) -> (r: Vec<String>)
    ensures
        paths_view(r@) == chromium_dirs_for(platform, browser, text_view(home), text_view(local_appdata)),
{
    let r = match platform {
        Platform::Linux => match browser {
            BrowserKind::Chrome => linux::chrome_default_dirs(home),
            BrowserKind::Brave => linux::brave_default_dirs(home),
            BrowserKind::Edge => linux::edge_default_dirs(home),
            _ => Vec::new(),
        },
        Platform::MacOs => match browser {
            BrowserKind::Chrome => macos::chrome_default_dirs(home),
            BrowserKind::Brave => macos::brave_default_dirs(home),
            BrowserKind::Edge => macos::edge_default_dirs(home),
            _ => Vec::new(),
        },
        Platform::Windows => match browser {
            BrowserKind::Chrome => windows::chrome_default_dirs(local_appdata),
            BrowserKind::Brave => windows::brave_default_dirs(local_appdata),
            BrowserKind::Edge => windows::edge_default_dirs(local_appdata),
            _ => Vec::new(),
        },
    };
    assert(paths_view(r@) =~= chromium_dirs_for(platform, browser, text_view(home), text_view(local_appdata)));
    r
}

/// Where `browser`'s cookies are read from on `platform`, given the data
/// directory from the command line (`data_dir`), the home directory and
/// the `%APPDATA%` and `%LOCALAPPDATA%` directories. Firefox reads
/// `cookies.sqlite` under the given or default profiles directory; Chrome,
/// Brave and Edge read the newest cookie database of the given or default
/// data directories; Safari reads its cookie file under the home
/// directory.
pub fn read_plan(
    browser: BrowserKind,
    platform: Platform,
    data_dir: Option<&str>,
    home: Option<&str>,
    appdata: Option<&str>,
    local_appdata: Option<&str>,
) -> (r: ReadPlan)
    ensures
        browser == BrowserKind::Firefox ==> (r matches ReadPlan::Firefox(res) && match data_dir {
            Some(d) => res matches Ok(p) && p@ == d@,
            None => match firefox_default_for(platform, text_view(home), text_view(appdata)) {
                Some(f) => res matches Ok(p) && p@ == f,
                None => res matches Err(CookieError::NoBrowserDir),
            },
        }),
        browser == BrowserKind::Chrome || browser == BrowserKind::Brave || browser == BrowserKind::Edge
            ==> (r matches ReadPlan::Chromium(dirs) && paths_view(dirs@) == match data_dir {
            Some(d) => seq![d@],
            None => chromium_dirs_for(platform, browser, text_view(home), text_view(local_appdata)),
        }),
        data_dir is None && platform == Platform::Linux ==> match home {
            Some(e) => {
                &&& (browser == BrowserKind::Chrome ==> (r matches ReadPlan::Chromium(d) && paths_view(d@) == linux::chrome_dirs(e@)))
                &&& (browser == BrowserKind::Brave ==> (r matches ReadPlan::Chromium(d) && paths_view(d@) == linux::brave_dirs(e@)))
                &&& (browser == BrowserKind::Edge ==> (r matches ReadPlan::Chromium(d) && paths_view(d@) == linux::edge_dirs(e@)))
                &&& (browser == BrowserKind::Firefox ==> (r matches ReadPlan::Firefox(Ok(p)) && p@ == linux::firefox_dir(e@)))
            },
            None => true,
        },
        data_dir is None && platform == Platform::MacOs ==> match home {
            Some(e) => {
                &&& (browser == BrowserKind::Chrome ==> (r matches ReadPlan::Chromium(d) && paths_view(d@) == macos::chrome_dirs(e@)))
                &&& (browser == BrowserKind::Brave ==> (r matches ReadPlan::Chromium(d) && paths_view(d@) == macos::brave_dirs(e@)))
                &&& (browser == BrowserKind::Edge ==> (r matches ReadPlan::Chromium(d) && paths_view(d@) == macos::edge_dirs(e@)))
                &&& (browser == BrowserKind::Firefox ==> (r matches ReadPlan::Firefox(Ok(p)) && p@ == macos::firefox_dir(e@)))
            },
            None => true,
        },
        data_dir is None && platform == Platform::Windows ==> match local_appdata {
            Some(e) => {
                &&& (browser == BrowserKind::Chrome ==> (r matches ReadPlan::Chromium(d) && paths_view(d@) == windows::chrome_dirs(e@)))
                &&& (browser == BrowserKind::Brave ==> (r matches ReadPlan::Chromium(d) && paths_view(d@) == windows::brave_dirs(e@)))
                &&& (browser == BrowserKind::Edge ==> (r matches ReadPlan::Chromium(d) && paths_view(d@) == windows::edge_dirs(e@)))
            },
            None => true,
        },
        data_dir is None && platform == Platform::Windows ==> match appdata {
            Some(e) => browser == BrowserKind::Firefox ==> (r matches ReadPlan::Firefox(Ok(p)) && p@ == windows::firefox_dir(e@)),
            None => true,
        },
        browser == BrowserKind::Safari ==> (r matches ReadPlan::Safari(files) && match home {
            Some(h) => paths_view(files@) == safari::safari_files(h@),
            None => files@.len() == 0,
        }),
{
    match browser {
        BrowserKind::Firefox => {
            let default_dir = match platform {
                Platform::Linux => linux::firefox_default_dir(home),
                Platform::MacOs => macos::firefox_default_dir(home),
                Platform::Windows => windows::firefox_default_dir(appdata),
            };
            ReadPlan::Firefox(firefox::profiles_dir(data_dir, default_dir))
        },
        BrowserKind::Safari => ReadPlan::Safari(safari::cookie_db_candidates(home)),
        _ => match data_dir {
            Some(d) => {
                let dirs = vec![d.to_owned()];
                assert(paths_view(dirs@) =~= seq![d@]);
                ReadPlan::Chromium(dirs)
            },
            None => ReadPlan::Chromium(chromium_default_dirs(platform, browser, home, local_appdata)),
        },
    }
}

/// The rows a browser's cookie store gave for the domain: names with plain
/// values (Firefox) or names with stored, usually encrypted, values
/// (Chrome, Brave, Edge).
pub enum StoreRows {
    Firefox(Vec<(String, String)>),
    Chromium(Vec<(String, Vec<u8>)>),
}

/// The cookies that Chromium rows yield on `platform`: the rows whose
/// value decrypts to a non-empty text, in row order.
pub open spec fn chromium_pairs(
    rows: Seq<(Seq<char>, Seq<u8>)>,
    platform: Platform,
    secret: Option<Seq<u8>>,
) -> Seq<CookiePair>
    decreases rows.len(),
{
    if rows.len() == 0 {
        seq![]
    } else {
        let prev = chromium_pairs(rows.drop_last(), platform, secret);
        match chromium_cookie_value(platform, rows.last().1, secret) {
            Ok(v) => if v.len() > 0 {
                prev.push((rows.last().0, v))
            } else {
                prev
            },
            Err(_) => prev,
        }
    }
}

/// Chrome, Brave and Edge cookies are kept only with a value: no cookie
/// of the jar that a Chromium store's rows give has an empty value.
pub proof fn law_chromium_values_nonempty(
    rows: Seq<(Seq<char>, Seq<u8>)>,
    platform: Platform,
    secret: Option<Seq<u8>>,
)
    ensures
        forall|k: Seq<char>| #[trigger] pairs_to_map(chromium_pairs(rows, platform, secret)).contains_key(k)
            ==> pairs_to_map(chromium_pairs(rows, platform, secret))[k].len() > 0,
{
    lemma_chromium_pairs_nonempty(rows, platform, secret);
    lemma_map_values_nonempty(chromium_pairs(rows, platform, secret));
}

proof fn lemma_chromium_pairs_nonempty(
    rows: Seq<(Seq<char>, Seq<u8>)>,
    platform: Platform,
    secret: Option<Seq<u8>>,
)
    ensures
        values_nonempty(chromium_pairs(rows, platform, secret)),
    decreases rows.len(),
{
    if rows.len() > 0 {
        lemma_chromium_pairs_nonempty(rows.drop_last(), platform, secret);
        let prev = chromium_pairs(rows.drop_last(), platform, secret);
        let all = chromium_pairs(rows, platform, secret);
        assert forall|i: int| 0 <= i < all.len() implies (#[trigger] all[i]).1.len() > 0 by {
            if i < prev.len() {
                assert(all[i] == prev[i]);
            }
        }
    }
}

/// The plain view of Chromium rows.
pub open spec fn chromium_rows_view(rows: Seq<(String, Vec<u8>)>) -> Seq<(Seq<char>, Seq<u8>)> {
    rows.map_values(|r: (String, Vec<u8>)| (r.0@, r.1@))
}

/// The plain view of Firefox rows.
pub open spec fn firefox_rows_view(rows: Seq<(String, String)>) -> Seq<CookiePair> {
    rows.map_values(|r: (String, String)| (r.0@, r.1@))
}

/// The cookies a store's rows make: Firefox rows are taken as they are;
/// Chromium rows are decrypted as `platform` does (with the keyring or
/// keychain password `secret`), keeping the non-empty values. A later row
/// replaces an earlier one of the same name.
pub fn read_cookies(rows: &StoreRows, platform: Platform, secret: Option<&[u8]>) -> (jar: CookieJar)
    ensures
        match rows {
            StoreRows::Firefox(r) => jar@ == pairs_to_map(firefox_rows_view(r@)),
            StoreRows::Chromium(r) => jar@ == pairs_to_map(
                chromium_pairs(
                    chromium_rows_view(r@),
                    platform,
                    match secret {
                        Some(s) => Some(s@),
                        None => None,
                    },
                ),
            ),
        },
{
    match rows {
        StoreRows::Firefox(r) => firefox::read(r),
        StoreRows::Chromium(r) => chrome::read(r, platform, secret),
    }
}

} // verus!
