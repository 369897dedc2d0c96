//! Linux desktop integration: the desktop entry and icon, the window's
//! name, and the KWin script that puts the window on every desktop.

use vstd::prelude::*;
use vstd::string::*;
use vstd::utf8::*;

use crate::cookies::platform::{join_path, joined};
use crate::text::{bytes_contain, chars_of, contains_bytes, decimal, occurs_at, push_decimal, str_eq};

verus! {

/// The user's data directory: `$XDG_DATA_HOME`, else `~/.local/share`
/// (with `/tmp` standing in for an unknown home).
pub fn xdg_data_dir(xdg_data_home: Option<&str>, home: Option<&str>) -> (r: String)
    ensures
        match xdg_data_home {
            Some(x) => r@ == x@,
            None => match home {
                Some(h) => r@ == joined(h@, ".local/share"@, false),
                None => r@ == joined("/tmp"@, ".local/share"@, false),
            },
        },
{
    match xdg_data_home {
        Some(x) => x.to_owned(),
        None => match home {
            Some(h) => join_path(h, ".local/share", false),
            None => join_path("/tmp", ".local/share", false),
        },
    }
}

/// Where the desktop entry of the application `app_id` goes.
pub fn desktop_file_path(data_dir: &str, app_id: &str) -> (r: String)
    ensures
        r@ == joined(data_dir@, "applications/"@ + app_id@ + ".desktop"@, false),
{
    let mut rel = String::from_str("applications/");
    rel.append(app_id);
    rel.append(".desktop");
    join_path(data_dir, rel.as_str(), false)
}

/// Where the icon of the application `app_id` goes.
pub fn icon_install_path(data_dir: &str, app_id: &str) -> (r: String)
    ensures
        r@ == joined(data_dir@, "icons/hicolor/256x256/apps/"@ + app_id@ + ".png"@, false),
{
    let mut rel = String::from_str("icons/hicolor/256x256/apps/");
    rel.append(app_id);
    rel.append(".png");
    join_path(data_dir, rel.as_str(), false)
}

/// The desktop entry of the usage widget for `service`, installed as
/// `app_id` and launching `exe`.
pub open spec fn desktop_entry_text(exe: Seq<char>, app_id: Seq<char>, service: Seq<char>) -> Seq<
    char,
> {
    "[Desktop Entry]\nType=Application\nName="@ + service + " Usage\nComment=Desktop widget showing "@
        + service + " usage stats\nExec="@ + exe + "\nIcon="@ + app_id
        + "\nTerminal=false\nStartupWMClass="@ + app_id
        + "\nStartupNotify=false\nCategories=Utility;\n"@
}

/// The desktop entry of the usage widget for `service`, installed as
/// `app_id` and launching `exe`.
pub fn desktop_entry(exe: &str, app_id: &str, service: &str) -> (r: String)
    ensures
        r@ == desktop_entry_text(exe@, app_id@, service@),
{
    let mut r = String::from_str("[Desktop Entry]\nType=Application\nName=");
    r.append(service);
    r.append(" Usage\nComment=Desktop widget showing ");
    r.append(service);
    r.append(" usage stats\nExec=");
    r.append(exe);
    r.append("\nIcon=");
    r.append(app_id);
    r.append("\nTerminal=false\nStartupWMClass=");
    r.append(app_id);
    r.append("\nStartupNotify=false\nCategories=Utility;\n");
    r
}

/// Whether an installed desktop entry already launches `exe` (it holds
/// `Exec=<exe>`); if so it is left alone.
pub fn entry_is_current(contents: &str, exe: &str) -> (r: bool)
    ensures
        r == contains_bytes(contents.spec_bytes(), encode_utf8("Exec="@ + exe@)),
{
    let mut needle = String::from_str("Exec=");
    needle.append(exe);
    bytes_contain(contents.as_bytes(), needle.as_str().as_bytes())
}

proof fn lemma_encode_concat(a: Seq<char>, b: Seq<char>)
    ensures
        encode_utf8(a + b) == encode_utf8(a) + encode_utf8(b),
    decreases a.len(),
{
    if a.len() == 0 {
        assert(a + b =~= b);
        assert(encode_utf8(a) + encode_utf8(b) =~= encode_utf8(b));
    } else {
        assert((a + b).drop_first() =~= a.drop_first() + b);
        assert((a + b)[0] == a[0]);
        lemma_encode_concat(a.drop_first(), b);
        assert(encode_utf8(a + b) =~= encode_utf8(a) + encode_utf8(b));
    }
}

/// An entry just written for `exe` is judged current for `exe`: a second
/// install from the same executable leaves the installed entry alone.
pub proof fn law_written_entry_is_current(exe: Seq<char>, app_id: Seq<char>, service: Seq<char>)
    ensures
        contains_bytes(
            encode_utf8(desktop_entry_text(exe, app_id, service)),
            encode_utf8("Exec="@ + exe),
        ),
{
    reveal_strlit(" usage stats\nExec=");
    reveal_strlit(" usage stats\n");
    reveal_strlit("Exec=");
    let pre = "[Desktop Entry]\nType=Application\nName="@ + service + " Usage\nComment=Desktop widget showing "@
        + service + " usage stats\n"@;
    let needle = "Exec="@ + exe;
    let post = "\nIcon="@ + app_id + "\nTerminal=false\nStartupWMClass="@ + app_id
        + "\nStartupNotify=false\nCategories=Utility;\n"@;
    assert(" usage stats\nExec="@ =~= " usage stats\n"@ + "Exec="@);
    assert(desktop_entry_text(exe, app_id, service) =~= pre + (needle + post));
    lemma_encode_concat(pre, needle + post);
    lemma_encode_concat(needle, post);
    let hay = encode_utf8(desktop_entry_text(exe, app_id, service));
    let n = encode_utf8(needle);
    let i = encode_utf8(pre).len() as int;
    assert(hay == encode_utf8(pre) + (n + encode_utf8(post)));
    assert(hay.subrange(i, i + n.len()) =~= n);
    assert(occurs_at(hay, n, i));
}

/// The window's name, unique to this process so that the window-manager
/// helpers find this very window: `<service> Usage <pid>`.
pub fn window_name(service: &str, pid: u32) -> (r: String)
    ensures
        r@ == service@ + " Usage "@ + decimal(pid as nat),
{
    let mut r = service.to_owned();
    r.append(" Usage ");
    push_decimal(&mut r, pid as u64);
    r
}

/// The window's name is known and is `wm_name`.
pub open spec fn is_named(name: Option<String>, wm_name: Seq<char>) -> bool {
    name matches Some(n) && n@ == wm_name
}

/// Among the managed windows (given by their names, none when a name could
/// not be read), the first one named `wm_name`: the window the
/// window-manager hints are sent to.
pub fn first_window_named(names: &Vec<Option<String>>, wm_name: &str) -> (r: Option<usize>)
    ensures
        match r {
            Some(i) => i < names@.len() && is_named(names@[i as int], wm_name@) && forall|j: int|
                0 <= j < i ==> !is_named(#[trigger] names@[j], wm_name@),
            None => forall|j: int| 0 <= j < names@.len() ==> !is_named(#[trigger] names@[j], wm_name@),
        },
{
    let mut i: usize = 0;
    while i < names.len()
        invariant
            0 <= i <= names.len(),
            forall|j: int| 0 <= j < i ==> !is_named(#[trigger] names@[j], wm_name@),
        decreases names.len() - i,
    {
        if let Some(n) = &names[i] {
            if str_eq(n.as_str(), wm_name) {
                return Some(i);
            }
        }
        i = i + 1;
    }
    None
}

/// The name the KWin script is loaded under: `<slug>_sticky_<pid>`.
pub fn kwin_script_name(slug: &str, pid: u32) -> (r: String)
    ensures
        r@ == slug@ + "_sticky_"@ + decimal(pid as nat),
{
    let mut r = slug.to_owned();
    r.append("_sticky_");
    push_decimal(&mut r, pid as u64);
    r
}

/// The text of a boolean in scripts: `true` or `false`.
pub open spec fn bool_text(b: bool) -> Seq<char> {
    if b {
        "true"@
    } else {
        "false"@
    }
}

/// The KWin script that sets `onAllDesktops` to `enable` on the first
/// window captioned `wm_name`.
pub open spec fn kwin_script_text(wm_name: Seq<char>, enable: bool) -> Seq<char> {
    "var w = workspace.windowList();\nfor (var i = 0; i < w.length; i++) {\nif (w[i].caption === \""@
        + wm_name + "\") {\nw[i].onAllDesktops = "@ + bool_text(enable) + ";\nbreak;\n}\n}"@
}

/// The KWin script that puts the window `wm_name` on every desktop (or
/// takes it off them).
pub fn kwin_script(wm_name: &str, enable: bool) -> (r: String)
    ensures
        r@ == kwin_script_text(wm_name@, enable),
{
    let mut r = String::from_str(
        "var w = workspace.windowList();\nfor (var i = 0; i < w.length; i++) {\nif (w[i].caption === \"",
    );
    r.append(wm_name);
    r.append("\") {\nw[i].onAllDesktops = ");
    r.append(if enable { "true" } else { "false" });
    r.append(";\nbreak;\n}\n}");
    r
}

/// Characters with the Unicode `White_Space` property, which `str::trim`
/// removes.
pub open spec fn is_white_space(c: char) -> bool {
    let u = c as u32;
    (0x09 <= u <= 0x0d) || u == 0x20 || u == 0x85 || u == 0xa0 || u == 0x1680 || (0x2000 <= u
        <= 0x200a) || u == 0x2028 || u == 0x2029 || u == 0x202f || u == 0x205f || u == 0x3000
}

fn white_space(c: char) -> (r: bool)
    ensures
        r == is_white_space(c),
{
    let u = c as u32;
    (0x09 <= u && u <= 0x0d) || u == 0x20 || u == 0x85 || u == 0xa0 || u == 0x1680 || (0x2000 <= u
        && u <= 0x200a) || u == 0x2028 || u == 0x2029 || u == 0x202f || u == 0x205f || u == 0x3000
}

/// `s` without leading white space.
pub open spec fn trim_start(s: Seq<char>) -> Seq<char>
    decreases s.len(),
{
    if s.len() > 0 && is_white_space(s[0]) {
        trim_start(s.drop_first())
    } else {
        s
    }
}

/// `s` without trailing white space.
pub open spec fn trim_end(s: Seq<char>) -> Seq<char>
    decreases s.len(),
{
    if s.len() > 0 && is_white_space(s.last()) {
        trim_end(s.drop_last())
    } else {
        s
    }
}

/// The value of a run of decimal digits.
pub open spec fn digits_value(d: Seq<char>) -> int
    decreases d.len(),
{
    if d.len() == 0 {
        0
    } else {
        digits_value(d.drop_last()) * 10 + (d.last() as u32 - 0x30)
    }
}

/// Every character is an ASCII digit.
pub open spec fn all_digits(d: Seq<char>) -> bool {
    forall|i: int| 0 <= i < d.len() ==> 0x30 <= #[trigger] (d[i] as u32) <= 0x39
}

/// The `i32` that `s` spells as `str::parse` reads it: an optional sign
/// and at least one digit, within range.
pub open spec fn i32_text_value(s: Seq<char>) -> Option<i32> {
    let neg = s.len() > 0 && s[0] == '-';
    let body = if s.len() > 0 && (s[0] == '-' || s[0] == '+') {
        s.drop_first()
    } else {
        s
    };
    if body.len() == 0 || !all_digits(body) {
        None
    } else {
        let v = if neg {
            -digits_value(body)
        } else {
            digits_value(body)
        };
        if i32::MIN <= v <= i32::MAX {
            Some(v as i32)
        } else {
            None
        }
    }
}

/// The script id a line of `dbus-send` output gives: the line, trimmed,
/// is `int32 ` followed by a number.
pub open spec fn line_script_id(line: Seq<char>) -> Option<i32> {
    let t = trim_end(trim_start(line));
    if t.len() >= 6 && t.take(6) == "int32 "@ {
        i32_text_value(t.skip(6))
    } else {
        None
    }
}

/// The index of the first line feed in `s`, or its length.
pub open spec fn line_end(s: Seq<char>) -> int
    decreases s.len(),
{
    if s.len() == 0 || s[0] == '\n' {
        0
    } else {
        1 + line_end(s.drop_first())
    }
}

/// The script id of the first line of `s` that gives one.
pub open spec fn script_id_in(s: Seq<char>) -> Option<i32>
    decreases s.len(),
{
    let k = line_end(s);
    if 0 <= k < s.len() {
        match line_script_id(s.take(k)) {
            Some(v) => Some(v),
            None => script_id_in(s.skip(k + 1)),
        }
    } else {
        line_script_id(s)
    }
}

proof fn lemma_line_end_bounds(s: Seq<char>)
    ensures
        0 <= line_end(s) <= s.len(),
        line_end(s) < s.len() ==> s[line_end(s)] == '\n',
        forall|j: int| 0 <= j < line_end(s) ==> s[j] != '\n',
    decreases s.len(),
{
    if s.len() > 0 && s[0] != '\n' {
        lemma_line_end_bounds(s.drop_first());
        assert forall|j: int| 0 <= j < line_end(s) implies s[j] != '\n' by {
            if j > 0 {
                assert(s[j] == s.drop_first()[j - 1]);
            }
        }
    }
}

proof fn lemma_line_end_is(s: Seq<char>, k: int)
    requires
        0 <= k <= s.len(),
        k < s.len() ==> s[k] == '\n',
        forall|j: int| 0 <= j < k ==> s[j] != '\n',
    ensures
        line_end(s) == k,
    decreases k,
{
    if k > 0 {
        assert forall|j: int| 0 <= j < k - 1 implies s.drop_first()[j] != '\n' by {
            assert(s.drop_first()[j] == s[j + 1]);
        }
        lemma_line_end_is(s.drop_first(), k - 1);
    }
}

proof fn lemma_digits_monotone(d: Seq<char>, n: int)
    requires
        all_digits(d),
        0 <= n <= d.len(),
    ensures
        0 <= digits_value(d.take(n)) <= digits_value(d),
    decreases d.len(),
{
    if d.len() > 0 {
        if n == d.len() {
            assert(d.take(n) =~= d);
            lemma_digits_monotone(d.drop_last(), n - 1);
            assert(d.drop_last().take(n - 1) =~= d.drop_last());
        } else {
            assert(all_digits(d.drop_last()));
            lemma_digits_monotone(d.drop_last(), n);
            assert(d.drop_last().take(n) =~= d.take(n));
        }
    }
}

#[verifier::spinoff_prover]
fn parse_i32(s: &[char]) -> (r: Option<i32>)
    ensures
        r == i32_text_value(s@),
{
    let mut start: usize = 0;
    let mut neg = false;
    if s.len() > 0 && (s[0] == '-' || s[0] == '+') {
        neg = s[0] == '-';
        start = 1;
    }
    let ghost body = s@.subrange(start as int, s@.len() as int);
    assert(body =~= if s@.len() > 0 && (s@[0] == '-' || s@[0] == '+') {
        s@.drop_first()
    } else {
        s@
    });
    if start == s.len() {
        return None;
    }
    let mut v: i64 = 0;
    let mut i: usize = start;
    while i < s.len()
        invariant
            start <= i <= s.len(),
            body == s@.subrange(start as int, s@.len() as int),
            body == (if s@.len() > 0 && (s@[0] == '-' || s@[0] == '+') {
                s@.drop_first()
            } else {
                s@
            }),
            neg == (s@.len() > 0 && s@[0] == '-'),
            body.len() > 0,
            forall|j: int| start <= j < i ==> 0x30 <= #[trigger] (s@[j] as u32) <= 0x39,
            v == digits_value(s@.subrange(start as int, i as int)),
            0 <= v <= 0x8000_0000,
        decreases s.len() - i,
    {
        let c = s[i] as u32;
        if c < 0x30 || c > 0x39 {
            assert(!all_digits(body)) by {
                assert(body[i - start] == s@[i as int]);
                assert(!(0x30 <= (body[i - start] as u32) <= 0x39));
            }
            return None;
        }
        let ghost prefix = s@.subrange(start as int, i + 1);
        assert(prefix.drop_last() =~= s@.subrange(start as int, i as int));
        assert(prefix.last() == s@[i as int]);
        v = v * 10 + (c - 0x30) as i64;
        assert(v == digits_value(prefix));
        if v > 0x8000_0000 {
            proof {
                if all_digits(body) {
                    lemma_digits_monotone(body, i + 1 - start);
                    assert(body.take(i + 1 - start) =~= s@.subrange(start as int, i + 1));
                }
            }
            return None;
        }
        i = i + 1;
    }
    assert(s@.subrange(start as int, s@.len() as int) == body);
    assert(all_digits(body)) by {
        assert forall|j: int| 0 <= j < body.len() implies 0x30 <= #[trigger] (body[j] as u32) <= 0x39 by {
            assert(body[j] == s@[start + j]);
        }
    }
    if neg {
        if v > 0x8000_0000 {
            return None;
        }
        Some((0 - v) as i32)
    } else {
        if v > 0x7fff_ffff {
            return None;
        }
        Some(v as i32)
    }
}

fn line_id(chars: &Vec<char>, lo: usize, hi: usize) -> (r: Option<i32>)
    requires
        lo <= hi <= chars@.len(),
    ensures
        r == line_script_id(chars@.subrange(lo as int, hi as int)),
{
    let ghost line = chars@.subrange(lo as int, hi as int);
    let mut a = lo;
    while a < hi && white_space(chars[a])
        invariant
            lo <= a <= hi <= chars@.len(),
            line == chars@.subrange(lo as int, hi as int),
            trim_start(line) == trim_start(chars@.subrange(a as int, hi as int)),
        decreases hi - a,
    {
        assert(chars@.subrange(a as int, hi as int).drop_first() =~= chars@.subrange(a + 1, hi as int));
        a = a + 1;
    }
    assert(trim_start(chars@.subrange(a as int, hi as int)) == chars@.subrange(a as int, hi as int));
    let mut b = hi;
    while b > a && white_space(chars[b - 1])
        invariant
            lo <= a <= b <= hi <= chars@.len(),
            trim_end(trim_start(line)) == trim_end(chars@.subrange(a as int, b as int)),
        decreases b - a,
    {
        assert(chars@.subrange(a as int, b as int).drop_last() =~= chars@.subrange(a as int, b - 1));
        b = b - 1;
    }
    let ghost t = chars@.subrange(a as int, b as int);
    assert(trim_end(t) == t);
    assert(trim_end(trim_start(line)) == t);
    let prefix = ['i', 'n', 't', '3', '2', ' '];
    proof {
        reveal_strlit("int32 ");
    }
    assert(prefix@ =~= "int32 "@);
    if b - a < 6 {
        return None;
    }
    let mut k: usize = 0;
    while k < 6
        invariant
            a + 6 <= b <= chars@.len(),
            t == chars@.subrange(a as int, b as int),
            line == chars@.subrange(lo as int, hi as int),
            trim_end(trim_start(line)) == t,
            prefix@ == "int32 "@,
            0 <= k <= 6,
            forall|j: int| 0 <= j < k ==> chars@[a + j] == prefix@[j],
        decreases 6 - k,
    {
        if chars[a + k] != prefix[k] {
            assert(t.take(6)[k as int] != "int32 "@[k as int]);
            return None;
        }
        k = k + 1;
    }
    assert(t.take(6) =~= "int32 "@);
    let rest = &chars.as_slice()[a + 6..b];
    assert(rest@ =~= t.skip(6));
    parse_i32(rest)
}

/// The script id that `dbus-send --print-reply` prints after loading a
/// script: the first line that reads `int32 <id>` once trimmed.
pub fn parse_script_id(output: &str) -> (r: Option<i32>)
    ensures
        r == script_id_in(output@),
{
    let chars = chars_of(output);
    let mut lo: usize = 0;
    assert(chars@.skip(0) =~= chars@);
    loop
        invariant
            chars@ == output@,
            0 <= lo <= chars@.len(),
            script_id_in(output@) == script_id_in(chars@.skip(lo as int)),
        decreases chars.len() - lo,
    {
        let ghost rest = chars@.skip(lo as int);
        let mut hi = lo;
        while hi < chars.len() && chars[hi] != '\n'
            invariant
                lo <= hi <= chars@.len(),
                forall|j: int| lo <= j < hi ==> chars@[j] != '\n',
            decreases chars.len() - hi,
        {
            hi = hi + 1;
        }
        proof {
            assert forall|j: int| 0 <= j < hi - lo implies rest[j] != '\n' by {
                assert(rest[j] == chars@[lo + j]);
            }
            lemma_line_end_is(rest, hi - lo);
        }
        if hi == chars.len() {
            assert(rest =~= chars@.subrange(lo as int, hi as int));
            return line_id(&chars, lo, hi);
        }
        assert(rest.take(hi - lo) =~= chars@.subrange(lo as int, hi as int));
        let found = line_id(&chars, lo, hi);
        if found.is_some() {
            return found;
        }
        assert(rest.skip(hi - lo + 1) =~= chars@.skip(hi + 1));
        lo = hi + 1;
    }
}

} // verus!
