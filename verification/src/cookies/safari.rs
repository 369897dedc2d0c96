//! Safari's `Cookies.binarycookies` format.
//!
//! The file starts with the magic `cook`, a big-endian page count and the
//! big-endian size of each page; the pages follow one another. A page holds
//! a little-endian cookie count and the little-endian offset of each cookie
//! record within the page. A record holds, among others, the offsets of its
//! NUL-terminated url (at byte 16), name (at 20) and value (at 28).

use vstd::prelude::*;
use vstd::utf8::*;
use vstd::string::*;

use super::jar::{
    insert_pairs, lemma_insert_pairs_concat, lemma_map_keys, lemma_map_values_nonempty, pairs_to_map,
    values_nonempty,
    CookieJar, CookiePair,
};
use super::CookieError;
use crate::cookies::platform::{first_present, join_path, joined};
use crate::text::{bytes_contain, contains_bytes, lemma_contains_bytes_transitive, str_from_utf8};

verus! {

broadcast use decode_utf8_encode_utf8;

/// The little-endian number in the four bytes of `s` at `off`.
pub open spec fn le32(s: Seq<u8>, off: int) -> int {
    s[off] as int + s[off + 1] as int * 0x100 + s[off + 2] as int * 0x1_0000 + s[off + 3] as int
        * 0x100_0000
}

/// The big-endian number in the four bytes of `s` at `off`.
pub open spec fn be32(s: Seq<u8>, off: int) -> int {
    s[off] as int * 0x100_0000 + s[off + 1] as int * 0x1_0000 + s[off + 2] as int * 0x100 + s[off
        + 3] as int
}

/// Reads the little-endian `u32` at `offset`.
pub fn u32_le(data: &[u8], offset: usize) -> (r: u32)
    requires
        offset + 4 <= data@.len(),
    ensures
        r == le32(data@, offset as int),
{
    data[offset] as u32 + data[offset + 1] as u32 * 0x100 + data[offset + 2] as u32 * 0x1_0000
        + data[offset + 3] as u32 * 0x100_0000
}

/// Reads the big-endian `u32` at `offset`.
pub fn u32_be(data: &[u8], offset: usize) -> (r: u32)
    requires
        offset + 4 <= data@.len(),
    ensures
        r == be32(data@, offset as int),
{
    data[offset] as u32 * 0x100_0000 + data[offset + 1] as u32 * 0x1_0000 + data[offset + 2] as u32
        * 0x100 + data[offset + 3] as u32
}

/// `t[e]` is the first NUL byte of `t`.
pub open spec fn first_nul(t: Seq<u8>, e: int) -> bool {
    &&& 0 <= e < t.len()
    &&& t[e] == 0
    &&& forall|j: int| 0 <= j < e ==> t[j] != 0
}

/// The bytes from `offset` up to the next NUL byte; none when `offset` lies
/// past the end or no NUL byte follows.
pub open spec fn cstring_bytes(data: Seq<u8>, offset: int) -> Option<Seq<u8>> {
    if offset > data.len() {
        None
    } else {
        let t = data.subrange(offset, data.len() as int);
        if exists|e: int| first_nul(t, e) {
            Some(t.take(choose|e: int| first_nul(t, e)))
        } else {
            None
        }
    }
}

/// The NUL-terminated string at `offset`, when its bytes are valid UTF-8.
pub open spec fn cstring_at(data: Seq<u8>, offset: int) -> Option<Seq<char>> {
    match cstring_bytes(data, offset) {
        Some(b) => if valid_utf8(b) {
            Some(decode_utf8(b))
        } else {
            None
        },
        None => None,
    }
}

/// Reads the NUL-terminated UTF-8 string starting at `offset`.
pub fn read_cstring(data: &[u8], offset: usize) -> (r: Option<&str>)
    ensures
        r is Some == cstring_at(data@, offset as int) is Some,
        r matches Some(s) ==> s@ == cstring_at(data@, offset as int)->0,
{
    if offset > data.len() {
        return None;
    }
    let start = &data[offset..data.len()];
    let ghost t = data@.subrange(offset as int, data@.len() as int);
    assert(start@ == t);
    let mut end: usize = 0;
    while end < start.len() && start[end] != 0
        invariant
            start@ == t,
            0 <= end <= start.len(),
            forall|j: int| 0 <= j < end ==> t[j] != 0,
        decreases start.len() - end,
    {
        end = end + 1;
    }
    if end == start.len() {
        assert(!exists|e: int| first_nul(t, e));
        return None;
    }
    assert(first_nul(t, end as int));
    assert(forall|e: int| first_nul(t, e) ==> e == end);
    let bytes = &start[0..end];
    assert(bytes@ == t.take(end as int));
    match str_from_utf8(bytes) {
        Ok(s) => Some(s),
        Err(_) => None,
    }
}

/// The cookie held by the record at `rec` in `page`, if the record fits
/// in the page, its url, name and value are UTF-8 strings, its url
/// contains `domain` and its value is not empty.
pub open spec fn record_cookie(page: Seq<u8>, rec: int, domain: Seq<u8>) -> Option<CookiePair> {
    if rec + 56 > page.len() {
        None
    } else {
        let r = page.subrange(rec, page.len() as int);
        let url = cstring_bytes(r, le32(r, 16));
        let name = cstring_at(r, le32(r, 20));
        let value = cstring_at(r, le32(r, 28));
        if url is Some && valid_utf8(url->0) && contains_bytes(url->0, domain) && name is Some
            && value is Some && (value->0).len() > 0 {
            Some((name->0, value->0))
        } else {
            None
        }
    }
}

/// The cookies of the first `n` records of `page`, in record order.
pub open spec fn page_cookies(page: Seq<u8>, n: nat, domain: Seq<u8>) -> Seq<CookiePair>
    decreases n,
{
    if n == 0 {
        seq![]
    } else {
        let prev = page_cookies(page, (n - 1) as nat, domain);
        match record_cookie(page, le32(page, 8 + 4 * (n - 1)), domain) {
            Some(c) => prev.push(c),
            None => prev,
        }
    }
}

/// The cookies of a page; a page too short for its header or its record
/// table contributes none.
pub open spec fn page_entries(page: Seq<u8>, domain: Seq<u8>) -> Seq<CookiePair> {
    if page.len() < 8 {
        seq![]
    } else if page.len() < 8 + 4 * le32(page, 4) {
        seq![]
    } else {
        page_cookies(page, le32(page, 4) as nat, domain)
    }
}

/// The cookies of pages `k` onwards, page `k` starting at `offset`; the
/// walk stops at the first page that runs past the end of the file.
pub open spec fn pages_from(
    data: Seq<u8>,
    num_pages: nat,
    k: nat,
    offset: int,
    domain: Seq<u8>,
) -> Seq<CookiePair>
    decreases num_pages - k,
{
    if k >= num_pages {
        seq![]
    } else {
        let size = be32(data, 8 + 4 * k as int);
        if offset + size > data.len() {
            seq![]
        } else {
            page_entries(data.subrange(offset, offset + size), domain) + pages_from(
                data,
                num_pages,
                k + 1,
                offset + size,
                domain,
            )
        }
    }
}

/// The file starts with the magic `cook`.
pub open spec fn has_magic(data: Seq<u8>) -> bool {
    &&& data.len() >= 4
    &&& data[0] == 0x63
    &&& data[1] == 0x6f
    &&& data[2] == 0x6f
    &&& data[3] == 0x6b
}

/// The cookies of a `.binarycookies` file whose url contains `domain`, in
/// file order; none when the header is missing or truncated.
pub open spec fn binary_cookies(data: Seq<u8>, domain: Seq<u8>) -> Option<Seq<CookiePair>> {
    if data.len() < 8 || !has_magic(data) {
        None
    } else if data.len() < 8 + 4 * be32(data, 4) {
        None
    } else {
        let np = be32(data, 4);
        Some(pages_from(data, np as nat, 0, 8 + 4 * np, domain))
    }
}

fn record_at(page: &[u8], rec: usize, domain: &str) -> (r: Option<(String, String)>)
    ensures
        match record_cookie(page@, rec as int, domain.spec_bytes()) {
            Some(c) => r matches Some(p) && p.0@ == c.0 && p.1@ == c.1,
            None => r is None,
        },
{
    if page.len() < 56 || rec > page.len() - 56 {
        return None;
    }
    let record = &page[rec..page.len()];
    let url_offset = u32_le(record, 16) as usize;
    let name_offset = u32_le(record, 20) as usize;
    let value_offset = u32_le(record, 28) as usize;
    let url = match read_cstring(record, url_offset) {
        Some(s) => s,
        None => {
            return None;
        },
    };
    proof {
        let b = cstring_bytes(record@, url_offset as int)->0;
        assert(url.spec_bytes() == b);
    }
    if !bytes_contain(url.as_bytes(), domain.as_bytes()) {
        return None;
    }
    let name = match read_cstring(record, name_offset) {
        Some(s) => s,
        None => {
            return None;
        },
    };
    let value = match read_cstring(record, value_offset) {
        Some(s) => s,
        None => {
            return None;
        },
    };
    if value.is_empty() {
        return None;
    }
    Some((name.to_owned(), value.to_owned()))
}

fn collect_page(page: &[u8], domain: &str, jar: &mut CookieJar)
    ensures
        final(jar)@ == insert_pairs(old(jar)@, page_entries(page@, domain.spec_bytes())),
{
    let ghost dom = domain.spec_bytes();
    if page.len() < 8 {
        return;
    }
    let num_cookies = u32_le(page, 4);
    if (page.len() as u64) < 8 + num_cookies as u64 * 4 {
        return;
    }
    let n = num_cookies as usize;
    let mut i: usize = 0;
    while i < n
        invariant
            n == le32(page@, 4),
            8 + 4 * n <= page.len(),
            0 <= i <= n,
            dom == domain.spec_bytes(),
            jar@ == insert_pairs(old(jar)@, page_cookies(page@, i as nat, dom)),
        decreases n - i,
    {
        assert(8 + i * 4 + 4 <= 8 + 4 * n) by (nonlinear_arith)
            requires
                i < n,
        ;
        let rec = u32_le(page, 8 + i * 4) as usize;
        let found = record_at(page, rec, domain);
        proof {
            assert(page_cookies(page@, (i + 1) as nat, dom) == match record_cookie(
                page@,
                le32(page@, 8 + 4 * i),
                dom,
            ) {
                Some(c) => page_cookies(page@, i as nat, dom).push(c),
                None => page_cookies(page@, i as nat, dom),
            });
        }
        match found {
            Some((name, value)) => {
                let ghost before = page_cookies(page@, i as nat, dom);
                jar.insert(name, value);
                assert(page_cookies(page@, (i + 1) as nat, dom).drop_last() == before);
            },
            None => {},
        }
        i = i + 1;
    }
}

/// Parses a `.binarycookies` file and returns the cookies whose url
/// contains `domain`, a later cookie replacing an earlier one of the same
/// name. Records that do not fit their page, whose strings are not
/// NUL-terminated UTF-8, or whose value is empty are skipped; the walk over
/// the pages stops at the first page that runs past the end of the file.
pub fn parse_binary_cookies(data: &[u8], domain: &str) -> (r: Result<CookieJar, CookieError>)
    ensures
        match binary_cookies(data@, domain.spec_bytes()) {
            Some(cookies) => r matches Ok(jar) && jar@ == pairs_to_map(cookies),
            None => r matches Err(CookieError::NoCookieDb),
        },
{
    let ghost dom = domain.spec_bytes();
    if data.len() < 8 || !(data[0] == 0x63 && data[1] == 0x6f && data[2] == 0x6f && data[3]
        == 0x6b) {
        return Err(CookieError::NoCookieDb);
    }
    let num_pages = u32_be(data, 4);
    if (data.len() as u64) < 8 + num_pages as u64 * 4 {
        return Err(CookieError::NoCookieDb);
    }
    let np = num_pages as usize;
    let mut page_sizes: Vec<u32> = Vec::new();
    let mut i: usize = 0;
    while i < np
        invariant
            np == be32(data@, 4),
            8 + 4 * np <= data.len(),
            0 <= i <= np,
            page_sizes@.len() == i,
            forall|j: int| 0 <= j < i ==> page_sizes@[j] == be32(data@, 8 + 4 * j),
        decreases np - i,
    {
        assert(8 + i * 4 + 4 <= 8 + 4 * np) by (nonlinear_arith)
            requires
                i < np,
        ;
        page_sizes.push(u32_be(data, 8 + i * 4));
        i = i + 1;
    }

    let mut jar = CookieJar::new();
    let mut page_offset: usize = 8 + np * 4;
    let ghost total = pages_from(data@, np as nat, 0, 8 + 4 * np, dom);
    let ghost mut acc: Seq<CookiePair> = seq![];
    let mut k: usize = 0;
    while k < np
        invariant
            np == be32(data@, 4),
            dom == domain.spec_bytes(),
            page_sizes@.len() == np,
            forall|j: int| 0 <= j < np ==> page_sizes@[j] == be32(data@, 8 + 4 * j),
            0 <= k <= np,
            page_offset <= data@.len(),
            acc + pages_from(data@, np as nat, k as nat, page_offset as int, dom) == total,
            jar@ == pairs_to_map(acc),
        decreases np - k,
    {
        let page_size = page_sizes[k] as usize;
        if page_size > data.len() - page_offset {
            assert(pages_from(data@, np as nat, k as nat, page_offset as int, dom) =~= seq![]);
            assert(acc + seq![] =~= acc);
            k = np;
        } else {
            let page = &data[page_offset..page_offset + page_size];
            let ghost rest = pages_from(
                data@,
                np as nat,
                (k + 1) as nat,
                (page_offset + page_size) as int,
                dom,
            );
            let ghost here = page_entries(page@, dom);
            assert(pages_from(data@, np as nat, k as nat, page_offset as int, dom) == here + rest);
            collect_page(page, domain, &mut jar);
            proof {
                lemma_insert_pairs_concat(Map::empty(), acc, here);
                assert(acc + (here + rest) =~= (acc + here) + rest);
                acc = acc + here;
            }
            page_offset = page_offset + page_size;
            k = k + 1;
        }
    }
    assert(pages_from(data@, np as nat, np as nat, page_offset as int, dom) =~= seq![]);
    assert(acc + seq![] =~= acc);
    Ok(jar)
}


proof fn lemma_page_cookies_nonempty(page: Seq<u8>, n: nat, domain: Seq<u8>)
    ensures
        values_nonempty(page_cookies(page, n, domain)),
    decreases n,
{
    if n > 0 {
        lemma_page_cookies_nonempty(page, (n - 1) as nat, domain);
        let prev = page_cookies(page, (n - 1) as nat, domain);
        match record_cookie(page, le32(page, 8 + 4 * (n - 1)), domain) {
            Some(c) => {
                assert forall|i: int| 0 <= i < prev.push(c).len() implies (#[trigger] prev.push(c)[i]).1.len() > 0 by {
                    if i < prev.len() {
                        assert(prev.push(c)[i] == prev[i]);
                    }
                }
            },
            None => {},
        }
    }
}

proof fn lemma_pages_nonempty(data: Seq<u8>, num_pages: nat, k: nat, offset: int, domain: Seq<u8>)
    ensures
        values_nonempty(pages_from(data, num_pages, k, offset, domain)),
    decreases num_pages - k,
{
    if k < num_pages {
        let size = be32(data, 8 + 4 * k as int);
        if offset + size <= data.len() {
            let page = data.subrange(offset, offset + size);
            lemma_pages_nonempty(data, num_pages, k + 1, offset + size, domain);
            let a = page_entries(page, domain);
            let b = pages_from(data, num_pages, k + 1, offset + size, domain);
            if page.len() >= 8 && page.len() >= 8 + 4 * le32(page, 4) {
                lemma_page_cookies_nonempty(page, le32(page, 4) as nat, domain);
            }
            assert forall|i: int| 0 <= i < (a + b).len() implies (#[trigger] (a + b)[i]).1.len() > 0 by {
                if i < a.len() {
                    assert((a + b)[i] == a[i]);
                } else {
                    assert((a + b)[i] == b[i - a.len()]);
                }
            }
        }
    }
}

proof fn lemma_record_looser_domain(page: Seq<u8>, rec: int, d1: Seq<u8>, d2: Seq<u8>)
    requires
        contains_bytes(d2, d1),
        record_cookie(page, rec, d2) is Some,
    ensures
        record_cookie(page, rec, d1) == record_cookie(page, rec, d2),
{
    let r = page.subrange(rec, page.len() as int);
    let url = cstring_bytes(r, le32(r, 16))->0;
    lemma_contains_bytes_transitive(url, d2, d1);
}

proof fn lemma_page_cookies_looser_domain(page: Seq<u8>, n: nat, d1: Seq<u8>, d2: Seq<u8>)
    requires
        contains_bytes(d2, d1),
    ensures
        forall|c: CookiePair| #[trigger] page_cookies(page, n, d2).contains(c) ==> page_cookies(page, n, d1).contains(c),
    decreases n,
{
    if n > 0 {
        lemma_page_cookies_looser_domain(page, (n - 1) as nat, d1, d2);
        let rec = le32(page, 8 + 4 * (n - 1));
        let p1 = page_cookies(page, (n - 1) as nat, d1);
        let p2 = page_cookies(page, (n - 1) as nat, d2);
        if record_cookie(page, rec, d2) is Some {
            lemma_record_looser_domain(page, rec, d1, d2);
        }
        assert forall|c: CookiePair| #[trigger] page_cookies(page, n, d2).contains(c) implies page_cookies(page, n, d1).contains(c) by {
            let all2 = page_cookies(page, n, d2);
            let all1 = page_cookies(page, n, d1);
            let i = choose|i: int| 0 <= i < all2.len() && all2[i] == c;
            if i < p2.len() {
                assert(p2[i] == c);
                assert(p2.contains(c));
                let j = choose|j: int| 0 <= j < p1.len() && p1[j] == c;
                if record_cookie(page, rec, d1) is Some {
                    assert(all1[j] == c);
                } else {
                    assert(all1 == p1);
                }
            } else {
                assert(all1[all1.len() - 1] == c);
            }
        }
    }
}

proof fn lemma_pages_looser_domain(data: Seq<u8>, num_pages: nat, k: nat, offset: int, d1: Seq<u8>, d2: Seq<u8>)
    requires
        contains_bytes(d2, d1),
    ensures
        forall|c: CookiePair| #[trigger] pages_from(data, num_pages, k, offset, d2).contains(c) ==> pages_from(
            data,
            num_pages,
            k,
            offset,
            d1,
        ).contains(c),
    decreases num_pages - k,
{
    if k < num_pages {
        let size = be32(data, 8 + 4 * k as int);
        if offset + size <= data.len() {
            let page = data.subrange(offset, offset + size);
            lemma_pages_looser_domain(data, num_pages, k + 1, offset + size, d1, d2);
            let e1 = page_entries(page, d1);
            let e2 = page_entries(page, d2);
            let r1 = pages_from(data, num_pages, k + 1, offset + size, d1);
            let r2 = pages_from(data, num_pages, k + 1, offset + size, d2);
            if page.len() >= 8 && page.len() >= 8 + 4 * le32(page, 4) {
                lemma_page_cookies_looser_domain(page, le32(page, 4) as nat, d1, d2);
            }
            assert forall|c: CookiePair| #[trigger] (e2 + r2).contains(c) implies (e1 + r1).contains(c) by {
                let i = choose|i: int| 0 <= i < (e2 + r2).len() && (e2 + r2)[i] == c;
                if i < e2.len() {
                    assert(e2[i] == c);
                    assert(e2.contains(c));
                    let j = choose|j: int| 0 <= j < e1.len() && e1[j] == c;
                    assert((e1 + r1)[j] == c);
                } else {
                    assert(r2[i - e2.len()] == c);
                    assert(r2.contains(c));
                    let j = choose|j: int| 0 <= j < r1.len() && r1[j] == c;
                    assert((e1 + r1)[e1.len() + j] == c);
                }
            }
        }
    }
}

/// A looser domain never loses a cookie: when `d1` occurs in `d2` (the
/// empty domain included), the file parses for `d1` exactly when it does
/// for `d2`, and every cookie name found for `d2` is found for `d1`.
pub proof fn law_looser_domain_keeps_cookies(data: Seq<u8>, d1: Seq<u8>, d2: Seq<u8>)
    requires
        contains_bytes(d2, d1),
    ensures
        binary_cookies(data, d1) is Some == binary_cookies(data, d2) is Some,
        binary_cookies(data, d2) matches Some(c2) ==> forall|k: Seq<char>|
            #[trigger] pairs_to_map(c2).contains_key(k) ==> pairs_to_map(binary_cookies(data, d1)->0).contains_key(k),
{
    if binary_cookies(data, d2) is Some {
        let np = be32(data, 4);
        let c1 = pages_from(data, np as nat, 0, 8 + 4 * np, d1);
        let c2 = pages_from(data, np as nat, 0, 8 + 4 * np, d2);
        lemma_pages_looser_domain(data, np as nat, 0, 8 + 4 * np, d1, d2);
        assert forall|k: Seq<char>| #[trigger] pairs_to_map(c2).contains_key(k) implies pairs_to_map(c1).contains_key(k) by {
            lemma_map_keys(c2, k);
            lemma_map_keys(c1, k);
            let i = choose|i: int| 0 <= i < c2.len() && #[trigger] c2[i].0 == k;
            assert(c2.contains(c2[i]));
            let j = choose|j: int| 0 <= j < c1.len() && c1[j] == c2[i];
            assert(c1[j].0 == k);
        }
    }
}

/// Safari cookies are read only with a value: no cookie of the jar that a
/// `.binarycookies` file gives has an empty value.
pub proof fn law_binary_cookie_values_nonempty(data: Seq<u8>, domain: Seq<u8>)
    ensures
        binary_cookies(data, domain) matches Some(cookies) ==> forall|k: Seq<char>|
            #[trigger] pairs_to_map(cookies).contains_key(k) ==> pairs_to_map(cookies)[k].len() > 0,
{
    if let Some(cookies) = binary_cookies(data, domain) {
        let np = be32(data, 4);
        lemma_pages_nonempty(data, np as nat, 0, 8 + 4 * np, domain);
        lemma_map_values_nonempty(cookies);
    }
}

/// Safari's cookie files under the home directory `h`, in the order they
/// are tried: the sandboxed container first, then the classic location.
pub open spec fn safari_files(h: Seq<char>) -> Seq<Seq<char>> {
    seq![
        joined(h, "Library/Containers/com.apple.Safari/Data/Library/Cookies/Cookies.binarycookies"@, false),
        joined(h, "Library/Cookies/Cookies.binarycookies"@, false),
    ]
}

/// Where Safari keeps its cookies, in the order they are tried: the
/// sandboxed container first, then the classic location.
pub fn cookie_db_candidates(home: Option<&str>) -> (r: Vec<String>)
    ensures
        match home {
            Some(h) => r@.map_values(|p: String| p@) == safari_files(h@),
            None => r@.len() == 0,
        },
{
    let mut r: Vec<String> = Vec::new();
    if let Some(h) = home {
        r.push(
            join_path(
                h,
                "Library/Containers/com.apple.Safari/Data/Library/Cookies/Cookies.binarycookies",
                false,
            ),
        );
        r.push(join_path(h, "Library/Cookies/Cookies.binarycookies", false));
        assert(r@.map_values(|p: String| p@) =~= seq![
            joined(
                h@,
                "Library/Containers/com.apple.Safari/Data/Library/Cookies/Cookies.binarycookies"@,
                false,
            ),
            joined(h@, "Library/Cookies/Cookies.binarycookies"@, false),
        ]);
    }
    r
}

/// The cookie file to read: the first of the candidate locations (see
/// [`cookie_db_candidates`]) that the caller found to be a file.
pub fn cookie_db_path(home: Option<&str>, is_file: &[bool]) -> (r: Option<String>)
    requires
        home is Some ==> is_file@.len() == 2,
    ensures
        match home {
            None => r is None,
            Some(h) => {
                let c0 = joined(
                    h@,
                    "Library/Containers/com.apple.Safari/Data/Library/Cookies/Cookies.binarycookies"@,
                    false,
                );
                let c1 = joined(h@, "Library/Cookies/Cookies.binarycookies"@, false);
                &&& is_file@[0] ==> (r matches Some(p) && p@ == c0)
                &&& !is_file@[0] && is_file@[1] ==> (r matches Some(p) && p@ == c1)
                &&& !is_file@[0] && !is_file@[1] ==> r is None
            },
        },
{
    if home.is_none() {
        return None;
    }
    let candidates = cookie_db_candidates(home);
    proof {
        assert(candidates@.map_values(|p: String| p@).len() == 2);
        assert(candidates@.len() == 2);
        assert(candidates@.map_values(|p: String| p@)[0] == candidates@[0]@);
        assert(candidates@.map_values(|p: String| p@)[1] == candidates@[1]@);
    }
    first_present(&candidates, is_file)
}

/// Why the cookie file could not be read.
#[derive(Clone, Copy, Debug, PartialEq, Eq, Structural)]
pub enum FileError {
    /// The system refused access (Safari's files need Full Disk Access).
    PermissionDenied,
    /// The file is missing or could not be read for another reason.
    Unreadable,
}

/// The cookies of the Safari cookie file for `domain`, given the file's
/// contents or why they could not be read.
pub fn read(file: Result<Vec<u8>, FileError>, domain: &str) -> (r: Result<CookieJar, CookieError>)
    ensures
        match file {
            Err(FileError::PermissionDenied) => r matches Err(CookieError::PermissionDenied),
            Err(FileError::Unreadable) => r matches Err(CookieError::NoCookieDb),
            Ok(data) => match binary_cookies(data@, domain.spec_bytes()) {
                Some(cookies) => r matches Ok(jar) && jar@ == pairs_to_map(cookies),
                None => r matches Err(CookieError::NoCookieDb),
            },
        },
{
    match file {
        Err(FileError::PermissionDenied) => Err(CookieError::PermissionDenied),
        Err(FileError::Unreadable) => Err(CookieError::NoCookieDb),
        Ok(data) => parse_binary_cookies(data.as_slice(), domain),
    }
}

} // verus!
