//! The command line and start-up decisions of the widget.

use vstd::prelude::*;

use crate::cookies::{has_session, BrowserKind, CookieError, CookieJar};
use crate::text::str_eq;

verus! {

/// Options for running the widget.
pub struct RunOptions {
    /// The browser to read cookies from; detected when absent.
    pub browser: Option<BrowserKind>,
    /// The browser's data directory, when not the default one.
    pub data_dir: Option<String>,
    /// The widget's title.
    pub title: String,
    /// Whether the title was given (else the account name replaces it).
    pub title_explicit: bool,
}

/// What the command line asks for.
pub enum Command {
    /// Print the usage text.
    Help,
    /// Remove the desktop entry and icon.
    Uninstall,
    /// Run the widget.
    Run(RunOptions),
}

/// The options as plain values, while the arguments are read.
pub ghost struct ArgState {
    pub browser: Option<BrowserKind>,
    pub data_dir: Option<Seq<char>>,
    pub title: Seq<char>,
    pub title_explicit: bool,
}

/// The outcome of reading the arguments, as plain values.
pub ghost enum ParsedArgs {
    Help,
    Uninstall,
    Run(ArgState),
    Fail(Seq<char>),
}

/// The options before any argument is read.
pub open spec fn initial_state() -> ArgState {
    ArgState { browser: None, data_dir: None, title: "Plan Usage"@, title_explicit: false }
}

/// Reads the arguments from index `i` on, starting from state `st`.
pub open spec fn parse_from(args: Seq<Seq<char>>, i: int, st: ArgState, macos: bool) -> ParsedArgs
    decreases args.len() - i,
{
    if i < 0 || i >= args.len() {
        if st.data_dir is Some && st.browser is None {
            ParsedArgs::Fail("Error: --data-dir requires --browser"@)
        } else {
            ParsedArgs::Run(st)
        }
    } else {
        let a = args[i];
        if a == "--help"@ || a == "-h"@ {
            ParsedArgs::Help
        } else if a == "--uninstall"@ {
            ParsedArgs::Uninstall
        } else if a == "--browser"@ {
            if i + 1 >= args.len() {
                ParsedArgs::Fail("Error: --browser requires a value"@)
            } else {
                let v = args[i + 1];
                if exists|b: BrowserKind| b.name_text() == v && available(b, macos) {
                    let b = choose|b: BrowserKind| b.name_text() == v && available(b, macos);
                    parse_from(args, i + 2, ArgState { browser: Some(b), ..st }, macos)
                } else {
                    ParsedArgs::Fail("Error: unknown browser '"@ + v + "' "@ + browser_hint(macos))
                }
            }
        } else if a == "--data-dir"@ {
            if i + 1 >= args.len() {
                ParsedArgs::Fail("Error: --data-dir requires a value"@)
            } else {
                parse_from(args, i + 2, ArgState { data_dir: Some(args[i + 1]), ..st }, macos)
            }
        } else if a == "--title"@ {
            if i + 1 >= args.len() {
                ParsedArgs::Fail("Error: --title requires a value"@)
            } else {
                parse_from(
                    args,
                    i + 2,
                    ArgState { title: args[i + 1], title_explicit: true, ..st },
                    macos,
                )
            }
        } else {
            ParsedArgs::Fail("Error: unknown argument '"@ + a + "'"@)
        }
    }
}

/// Whether `b` can be chosen on macOS (`macos`) or another system:
/// Safari only on macOS.
pub open spec fn available(b: BrowserKind, macos: bool) -> bool {
    b != BrowserKind::Safari || macos
}

fn is_available(b: BrowserKind, macos: bool) -> (r: bool)
    ensures
        r == available(b, macos),
{
    match b {
        BrowserKind::Safari => macos,
        _ => true,
    }
}

/// The browsers that can be chosen, as told after an unknown name.
pub open spec fn browser_hint(macos: bool) -> Seq<char> {
    if macos {
        "(use firefox, chrome, brave, edge, or safari)"@
    } else {
        "(use firefox, chrome, brave, or edge)"@
    }
}

fn hint(macos: bool) -> (r: &'static str)
    ensures
        r@ == browser_hint(macos),
{
    if macos {
        "(use firefox, chrome, brave, edge, or safari)"
    } else {
        "(use firefox, chrome, brave, or edge)"
    }
}

/// An optional string as plain characters.
pub open spec fn opt_view(o: Option<String>) -> Option<Seq<char>> {
    match o {
        Some(s) => Some(s@),
        None => None,
    }
}

/// The command as plain values.
pub open spec fn command_view(c: Command) -> ParsedArgs {
    match c {
        Command::Help => ParsedArgs::Help,
        Command::Uninstall => ParsedArgs::Uninstall,
        Command::Run(o) => ParsedArgs::Run(
            ArgState {
                browser: o.browser,
                data_dir: opt_view(o.data_dir),
                title: o.title@,
                title_explicit: o.title_explicit,
            },
        ),
    }
}

/// The arguments as plain values.
pub open spec fn args_view(args: Seq<String>) -> Seq<Seq<char>> {
    args.map_values(|a: String| a@)
}

/// Reads the command line (the arguments after the program name) on
/// macOS (`macos`) or another system; Safari can be chosen on macOS only.
/// The error is the message the widget exits with.
pub fn parse_args(args: &Vec<String>, macos: bool) -> (r: Result<Command, String>)
    ensures
        match parse_from(args_view(args@), 0, initial_state(), macos) {
            ParsedArgs::Fail(m) => r matches Err(e) && e@ == m,
            p => r matches Ok(c) && command_view(c) == p,
        },
{
    let ghost av = args_view(args@);
    let mut browser: Option<BrowserKind> = None;
    let mut data_dir: Option<String> = None;
    let mut title = String::from_str("Plan Usage");
    let mut title_explicit = false;
    let mut i: usize = 0;
    while i < args.len()
        invariant
            av == args_view(args@),
            av.len() == args@.len(),
            0 <= i <= args.len(),
            parse_from(av, 0, initial_state(), macos) == parse_from(
                av,
                i as int,
                ArgState {
                    browser,
                    data_dir: opt_view(data_dir),
                    title: title@,
                    title_explicit,
                },
                macos,
            ),
        decreases args.len() - i,
    {
        let ghost st = ArgState {
            browser,
            data_dir: opt_view(data_dir),
            title: title@,
            title_explicit,
        };
        let a = args[i].as_str();
        assert(av[i as int] == a@);
        if str_eq(a, "--help") || str_eq(a, "-h") {
            return Ok(Command::Help);
        } else if str_eq(a, "--uninstall") {
            return Ok(Command::Uninstall);
        } else if str_eq(a, "--browser") {
            if i + 1 >= args.len() {
                return Err(String::from_str("Error: --browser requires a value"));
            }
            let v = args[i + 1].as_str();
            assert(av[i + 1] == v@);
            let named = BrowserKind::from_name(v);
            let chosen = match named {
                Some(b) => if is_available(b, macos) {
                    Some(b)
                } else {
                    None
                },
                None => None,
            };
            match chosen {
                Some(b) => {
                    assert(b.name_text() == v@);
                    assert forall|c: BrowserKind| c.name_text() == v@ implies c == b by {
                        BrowserKind::lemma_names_distinct(c, b);
                    }
                    browser = Some(b);
                },
                None => {
                    assert forall|c: BrowserKind| c.name_text() == v@ implies !available(c, macos) by {
                        if let Some(b) = named {
                            BrowserKind::lemma_names_distinct(c, b);
                        }
                    }
                    let mut m = String::from_str("Error: unknown browser '");
                    m.append(v);
                    m.append("' ");
                    m.append(hint(macos));
                    return Err(m);
                },
            }
        } else if str_eq(a, "--data-dir") {
            if i + 1 >= args.len() {
                return Err(String::from_str("Error: --data-dir requires a value"));
            }
            assert(av[i + 1] == args@[i + 1]@);
            data_dir = Some(args[i + 1].clone());
        } else if str_eq(a, "--title") {
            if i + 1 >= args.len() {
                return Err(String::from_str("Error: --title requires a value"));
            }
            assert(av[i + 1] == args@[i + 1]@);
            title = args[i + 1].clone();
            title_explicit = true;
        } else {
            let mut m = String::from_str("Error: unknown argument '");
            m.append(a);
            m.append("'");
            return Err(m);
        }
        i = i + 2;
    }
    if data_dir.is_some() && browser.is_none() {
        return Err(String::from_str("Error: --data-dir requires --browser"));
    }
    Ok(Command::Run(RunOptions { browser, data_dir, title, title_explicit }))
}


/// The order in which browsers are tried for a session: Firefox first
/// (it needs no permission prompt), then Chrome, Brave and Edge, and
/// Safari last, on macOS only.
pub open spec fn detection_order_seq(macos: bool) -> Seq<BrowserKind> {
    if macos {
        seq![BrowserKind::Firefox, BrowserKind::Chrome, BrowserKind::Brave, BrowserKind::Edge, BrowserKind::Safari]
    } else {
        seq![BrowserKind::Firefox, BrowserKind::Chrome, BrowserKind::Brave, BrowserKind::Edge]
    }
}

/// The browsers to try for a session, in the order they are tried.
pub fn detection_order(macos: bool) -> (r: Vec<BrowserKind>)
    ensures
        r@ == detection_order_seq(macos),
{
    let mut r = vec![BrowserKind::Firefox, BrowserKind::Chrome, BrowserKind::Brave, BrowserKind::Edge];
    if macos {
        r.push(BrowserKind::Safari);
    }
    assert(r@ =~= detection_order_seq(macos));
    r
}

/// `b` comes first, in the order browsers are tried, among `found`.
pub open spec fn is_first_found(found: Seq<BrowserKind>, b: BrowserKind) -> bool {
    found.contains(b) && forall|c: BrowserKind| #[trigger] found.contains(c) ==> b.rank() <= c.rank()
}

fn contains_browser(found: &Vec<BrowserKind>, b: BrowserKind) -> (r: bool)
    ensures
        r == found@.contains(b),
{
    let mut i: usize = 0;
    while i < found.len()
        invariant
            0 <= i <= found.len(),
            forall|j: int| 0 <= j < i ==> found@[j] != b,
        decreases found.len() - i,
    {
        if found[i] == b {
            assert(found@[i as int] == b);
            return true;
        }
        i = i + 1;
    }
    false
}

/// Chooses the browser to read from among those found holding a session
/// on `site`: the first in the order browsers are tried (Firefox, Chrome,
/// Brave, Edge, Safari); finding none is an error.
pub fn detect_browsers_or_exit(found: &Vec<BrowserKind>, site: &str) -> (r: Result<BrowserKind, String>)
    ensures
        found@.len() == 0 ==> (r matches Err(e) && e@ == "No "@ + site@
            + " session found in any supported browser."@),
        found@.len() > 0 ==> (r matches Ok(b) && is_first_found(found@, b)),
{
    let all = [BrowserKind::Firefox, BrowserKind::Chrome, BrowserKind::Brave, BrowserKind::Edge, BrowserKind::Safari];
    let mut i: usize = 0;
    while i < 5
        invariant
            0 <= i <= 5,
            all@ == seq![BrowserKind::Firefox, BrowserKind::Chrome, BrowserKind::Brave, BrowserKind::Edge, BrowserKind::Safari],
            forall|c: BrowserKind| found@.contains(c) ==> c.rank() >= i,
        decreases 5 - i,
    {
        if contains_browser(found, all[i]) {
            return Ok(all[i]);
        }
        assert forall|c: BrowserKind| found@.contains(c) implies c.rank() >= i + 1 by {
            if c.rank() == i {
                assert(c == all@[i as int]);
            }
        }
        i = i + 1;
    }
    if found.len() > 0 {
        assert(found@.contains(found@[0]));
    }
    let mut e = String::from_str("No ");
    e.append(site);
    e.append(" session found in any supported browser.");
    Err(e)
}

/// With an explicitly chosen browser, checks that its cookies could be
/// read and hold a session on `site`; the error is the message the widget
/// exits with.
pub fn check_chosen_browser(
    browser: BrowserKind,
    cookies: &Result<CookieJar, CookieError>,
    site: &str,
) -> (r: Result<(), String>)
    ensures
        match cookies {
            Ok(jar) => if jar@.contains_key("sessionKey"@) {
                r is Ok
            } else {
                r matches Err(m) && m@ == "No "@ + site@ + " session found in "@
                    + browser.name_text() + "."@
            },
            Err(e) => r matches Err(m) && m@ == "Error reading "@ + browser.name_text()
                + " cookies: "@ + e.message_text(),
        },
{
    match cookies {
        Ok(jar) => {
            if has_session(jar) {
                Ok(())
            } else {
                let mut m = String::from_str("No ");
                m.append(site);
                m.append(" session found in ");
                m.append(browser.name());
                m.append(".");
                Err(m)
            }
        },
        Err(e) => {
            let mut m = String::from_str("Error reading ");
            m.append(browser.name());
            m.append(" cookies: ");
            let msg = e.message();
            m.append(msg.as_str());
            Err(m)
        },
    }
}

/// On Linux the widget prefers the X11 backend (through XWayland on a
/// Wayland session) so that the compositor draws its shadow. Given
/// whether `WAYLAND_DISPLAY` and `DISPLAY` are set, returns whether X11 is
/// used and whether `WAYLAND_DISPLAY` must be unset to get it.
pub fn prefer_xwayland(wayland_display: bool, display: bool) -> (r: (bool, bool))
    ensures
        r == (display, wayland_display && display),
{
    if !wayland_display {
        return (display, false);
    }
    if display {
        return (true, true);
    }
    (false, false)
}

} // verus!
