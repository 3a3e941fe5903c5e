//! Proxy candidates: reading the three public proxy lists, merging them into
//! one ordered list without repeats, and deciding when the list is refreshed
//! and which entries are tried.
use vstd::prelude::*;
use vstd::string::*;
use crate::json::{
    JsonValue, field, first_of, get_field, get_first, get_items, get_str, get_u64, items_of, str_of,
    text_or, text_or_default, text_or_empty, u64_of,
};
use crate::text::{
    decimal_spec, is_ascii_digit, is_whitespace, lemma_decimal_digits, lemma_find_char_at,
    lemma_find_char_none, lemma_parse_decimal, lemma_trim_of_trimmed, lemma_seq_lt_total, lemma_seq_lt_transitive, lines_spec, parse_unsigned, parse_unsigned_spec, push_char, push_decimal,
    seq_lt, split_lines, split_on, split_spec, str_eq, str_lt, trim, trim_spec,
};

verus! {

#[derive(Debug, Clone)]
pub struct ProxyEntry {
    pub host: String,
    pub port: u16,
    pub protocol: String,
}

pub ghost struct ProxyEntryView {
    pub host: Seq<char>,
    pub port: u16,
    pub protocol: Seq<char>,
}

impl View for ProxyEntry {
    type V = ProxyEntryView;

    open spec fn view(&self) -> ProxyEntryView {
        ProxyEntryView { host: self.host@, port: self.port, protocol: self.protocol@ }
    }
}

pub open spec fn entries_view(v: Seq<ProxyEntry>) -> Seq<ProxyEntryView> {
    Seq::new(v.len(), |i: int| v[i]@)
}

/// The proxy URL of an entry: `protocol://host:port`.
pub open spec fn url_spec(e: ProxyEntryView) -> Seq<char> {
    e.protocol + "://"@ + e.host + seq![':'] + decimal_spec(e.port as nat)
}

impl ProxyEntry {
    /// `protocol://host:port`.
    pub fn url(&self) -> (r: String)
        ensures
            r@ == url_spec(self@),
    {
        let mut s = self.protocol.clone();
        s.append("://");
        s.append(self.host.as_str());
        push_char(&mut s, ':');
        push_decimal(&mut s, self.port as u64);
        assert(s@ =~= url_spec(self@));
        s
    }

    /// A copy of the entry.
    pub fn copy(&self) -> (r: ProxyEntry)
        ensures
            r@ == self@,
    {
        ProxyEntry { host: self.host.clone(), port: self.port, protocol: self.protocol.clone() }
    }
}

fn make_entry(host: String, port: u64, protocol: String) -> (r: ProxyEntry)
    requires
        port <= 65535,
    ensures
        r@ == (ProxyEntryView { host: host@, port: port as u16, protocol: protocol@ }),
{
    ProxyEntry { host, port: port as u16, protocol }
}

// ------------------------------------------------------------ geonode list

/// The port of a geonode item: a number, or a string holding one; else 0.
pub open spec fn geonode_port(item: JsonValue) -> int {
    match u64_of(field(Some(item), "port"@)) {
        Some(p) => p as int,
        None => match str_of(field(Some(item), "port"@)) {
            Some(t) => match parse_unsigned_spec(t, u64::MAX as int) {
                Some(p) => p,
                None => 0,
            },
            None => 0,
        },
    }
}

/// The entry a geonode item stands for: its `ip`, its port, and its first
/// protocol (`http` when none); none when the ip is empty or the port is not
/// in 1..=65535.
pub open spec fn geonode_entry(item: JsonValue) -> Option<ProxyEntryView> {
    let host = text_or(str_of(field(Some(item), "ip"@)), seq![]);
    let port = geonode_port(item);
    let protocol = text_or(str_of(first_of(items_of(field(Some(item), "protocols"@)))), "http"@);
    if host.len() > 0 && 0 < port <= 65535 {
        Some(ProxyEntryView { host, port: port as u16, protocol })
    } else {
        None
    }
}

/// The entries of a geonode reply, from its `data` list, in order.
pub open spec fn geonode_spec(v: JsonValue) -> Seq<ProxyEntryView> {
    match items_of(field(Some(v), "data"@)) {
        Some(items) => items.filter_map(|x: JsonValue| geonode_entry(x)),
        None => seq![],
    }
}



fn geonode_item(item: &JsonValue) -> (r: Option<ProxyEntry>)
    ensures
        match r {
            Some(e) => geonode_entry(*item) == Some(e@),
            None => geonode_entry(*item) is None,
        },
{
    let host = text_or_empty(get_str(get_field(Some(item), "ip")));
    let port: u64 = match get_u64(get_field(Some(item), "port")) {
        Some(p) => p,
        None => match get_str(get_field(Some(item), "port")) {
            Some(t) => match parse_unsigned(t.as_str(), u64::MAX) {
                Some(p) => p,
                None => 0,
            },
            None => 0,
        },
    };
    let protocol = text_or_default(get_str(get_first(get_items(get_field(Some(item), "protocols")))), "http");
    if host.as_str().unicode_len() > 0 && port > 0 && port <= 65535 {
        Some(make_entry(host, port, protocol))
    } else {
        None
    }
}

/// Reads the proxies of a geonode reply.
pub fn parse_geonode_json(v: &JsonValue) -> (r: Vec<ProxyEntry>)
    ensures
        entries_view(r@) == geonode_spec(*v),
{
    let mut out: Vec<ProxyEntry> = Vec::new();
    match get_items(get_field(Some(v), "data")) {
        Some(items) => {
            let ghost f = |x: JsonValue| geonode_entry(x);
            let n = items.len();
            let mut i: usize = 0;
            assert(items@.take(0) =~= Seq::<JsonValue>::empty());
            assert(entries_view(out@) =~= Seq::<ProxyEntryView>::empty());
            while i < n
                invariant
                    i <= n,
                    n == items@.len(),
                    f == (|x: JsonValue| geonode_entry(x)),
                    entries_view(out@) == items@.take(i as int).filter_map(f),
                decreases n - i,
            {
                assert(items@.take(i + 1).drop_last() =~= items@.take(i as int));
                let ghost before = entries_view(out@);
                match geonode_item(&items[i]) {
                    Some(e) => {
                        out.push(e);
                        assert(entries_view(out@) =~= before + seq![e@]);
                    },
                    None => {},
                }
                i += 1;
            }
            assert(items@.take(n as int) =~= items@);
        },
        None => {
            assert(entries_view(out@) =~= Seq::<ProxyEntryView>::empty());
        },
    }
    out
}

// ------------------------------------------------------- proxyscrape list

/// The entry of one proxyscrape line: the trimmed line must be exactly
/// `host:port` with one `:` and a port in 0..=65535; the protocol is `http`.
pub open spec fn proxyscrape_entry(line: Seq<char>) -> Option<ProxyEntryView> {
    let parts = split_spec(trim_spec(line), ':');
    if parts.len() == 2 {
        match parse_unsigned_spec(parts[1], 65535) {
            Some(p) => Some(ProxyEntryView { host: parts[0], port: p as u16, protocol: "http"@ }),
            None => None,
        }
    } else {
        None
    }
}

/// The entries of a proxyscrape reply, one per fitting line, in order.
pub open spec fn proxyscrape_spec(body: Seq<char>) -> Seq<ProxyEntryView> {
    lines_spec(body).filter_map(|l: Seq<char>| proxyscrape_entry(l))
}

fn proxyscrape_line(line: &str) -> (r: Option<ProxyEntry>)
    ensures
        match r {
            Some(e) => proxyscrape_entry(line@) == Some(e@),
            None => proxyscrape_entry(line@) is None,
        },
{
    let t = trim(line);
    let parts = split_on(t.as_str(), ':');
    if parts.len() == 2 {
        match parse_unsigned(parts[1].as_str(), 65535) {
            Some(p) => Some(make_entry(parts[0].clone(), p, String::from_str("http"))),
            None => None,
        }
    } else {
        None
    }
}

/// Reads the proxies of a proxyscrape reply: one `host:port` per line.
pub fn parse_proxyscrape_text(body: &str) -> (r: Vec<ProxyEntry>)
    ensures
        entries_view(r@) == proxyscrape_spec(body@),
{
    let lines = split_lines(body);
    let ghost ls = lines.deep_view();
    let ghost f = |l: Seq<char>| proxyscrape_entry(l);
    let mut out: Vec<ProxyEntry> = Vec::new();
    let n = lines.len();
    let mut i: usize = 0;
    assert(ls.take(0) =~= Seq::<Seq<char>>::empty());
    assert(entries_view(out@) =~= Seq::<ProxyEntryView>::empty());
    while i < n
        invariant
            i <= n,
            n == lines@.len(),
            ls == lines.deep_view(),
            ls == lines_spec(body@),
            f == (|l: Seq<char>| proxyscrape_entry(l)),
            entries_view(out@) == ls.take(i as int).filter_map(f),
        decreases n - i,
    {
        assert(ls.take(i + 1).drop_last() =~= ls.take(i as int));
        assert(ls.take(i + 1).last() == lines@[i as int]@);
        let ghost before = entries_view(out@);
        match proxyscrape_line(lines[i].as_str()) {
            Some(e) => {
                out.push(e);
                assert(entries_view(out@) =~= before + seq![e@]);
            },
            None => {},
        }
        i += 1;
    }
    assert(ls.take(n as int) =~= ls);
    out
}

/// A `host:port` line is read back as the entry it was written from, when
/// the host holds no `:` or line break and does not start with whitespace.
pub proof fn lemma_proxyscrape_line_roundtrip(host: Seq<char>, port: u16)
    requires
        !host.contains(':'),
        !host.contains('\n'),
        host.len() > 0 ==> !is_whitespace(host[0]),
    ensures
        proxyscrape_spec(host + seq![':'] + decimal_spec(port as nat)) == seq![
            ProxyEntryView { host, port, protocol: "http"@ },
        ],
{
    let digits = decimal_spec(port as nat);
    let line = host + seq![':'] + digits;
    lemma_decimal_digits(port as nat);
    lemma_parse_decimal(port as nat, 65535);
    assert forall|k: int| 0 <= k < line.len() implies line[k] != '\n' by {
        if k < host.len() {
            assert(line[k] == host[k]);
        } else if k > host.len() {
            assert(line[k] == digits[k - host.len() - 1]);
            assert(is_ascii_digit(digits[k - host.len() - 1]));
        }
    }
    lemma_find_char_none(line, '\n');
    assert(lines_spec(line) == seq![line]);
    assert(!is_whitespace(line[0])) by {
        if host.len() > 0 {
            assert(line[0] == host[0]);
        } else {
            assert(line[0] == ':');
        }
    }
    assert(line.last() == digits.last());
    assert(is_ascii_digit(digits[digits.len() - 1]));
    lemma_trim_of_trimmed(line);
    assert forall|k: int| 0 <= k < host.len() implies line[k] != ':' by {
        assert(line[k] == host[k]);
    }
    lemma_find_char_at(line, ':', host.len() as int);
    assert(line.take(host.len() as int) =~= host);
    assert(line.skip(host.len() as int + 1) =~= digits);
    assert forall|k: int| 0 <= k < digits.len() implies digits[k] != ':' by {
        assert(is_ascii_digit(digits[k]));
    }
    lemma_find_char_none(digits, ':');
    assert(split_spec(digits, ':') == seq![digits]);
    assert(split_spec(line, ':') =~= seq![host, digits]);
    assert(seq![line].drop_last() =~= Seq::<Seq<char>>::empty());
    assert(trim_spec(line) == line);
    assert(proxyscrape_entry(line) == Some(ProxyEntryView { host, port, protocol: "http"@ }));
    assert(seq![line].last() == line);
    reveal_with_fuel(Seq::filter_map, 2);
    assert(proxyscrape_spec(line) =~= seq![ProxyEntryView { host, port, protocol: "http"@ }]);
}

// ------------------------------------------------------------- fate0 list

/// The entry of one fate0 record: only records whose `country` is `CN`, with
/// a non-empty `host` and a numeric `port` in 1..=65535; the protocol is
/// `type` (`http` when absent).
pub open spec fn fate0_entry(v: JsonValue) -> Option<ProxyEntryView> {
    let country = text_or(str_of(field(Some(v), "country"@)), seq![]);
    let host = text_or(str_of(field(Some(v), "host"@)), seq![]);
    let port: int = match u64_of(field(Some(v), "port"@)) {
        Some(p) => p as int,
        None => 0,
    };
    let protocol = text_or(str_of(field(Some(v), "type"@)), "http"@);
    if country == "CN"@ && host.len() > 0 && 0 < port <= 65535 {
        Some(ProxyEntryView { host, port: port as u16, protocol })
    } else {
        None
    }
}

pub open spec fn fate0_line_entry(line: Option<JsonValue>) -> Option<ProxyEntryView> {
    match line {
        Some(v) => fate0_entry(v),
        None => None,
    }
}

/// The entries of a fate0 list, given each of its lines as parsed JSON
/// (`None` for a line that is not JSON).
pub open spec fn fate0_spec(lines: Seq<Option<JsonValue>>) -> Seq<ProxyEntryView> {
    lines.filter_map(|l: Option<JsonValue>| fate0_line_entry(l))
}

fn fate0_record(v: &JsonValue) -> (r: Option<ProxyEntry>)
    ensures
        match r {
            Some(e) => fate0_entry(*v) == Some(e@),
            None => fate0_entry(*v) is None,
        },
{
    let country = text_or_empty(get_str(get_field(Some(v), "country")));
    if !str_eq(country.as_str(), "CN") {
        return None;
    }
    let host = text_or_empty(get_str(get_field(Some(v), "host")));
    let port: u64 = match get_u64(get_field(Some(v), "port")) {
        Some(p) => p,
        None => 0,
    };
    let protocol = text_or_default(get_str(get_field(Some(v), "type")), "http");
    if host.as_str().unicode_len() > 0 && port > 0 && port <= 65535 {
        Some(make_entry(host, port, protocol))
    } else {
        None
    }
}

/// Reads the proxies of a fate0 list from its lines, each parsed as JSON.
pub fn parse_fate0_lines(lines: &Vec<Option<JsonValue>>) -> (r: Vec<ProxyEntry>)
    ensures
        entries_view(r@) == fate0_spec(lines@),
{
    let ghost f = |l: Option<JsonValue>| fate0_line_entry(l);
    let mut out: Vec<ProxyEntry> = Vec::new();
    let n = lines.len();
    let mut i: usize = 0;
    assert(lines@.take(0) =~= Seq::<Option<JsonValue>>::empty());
    assert(entries_view(out@) =~= Seq::<ProxyEntryView>::empty());
    while i < n
        invariant
            i <= n,
            n == lines@.len(),
            f == (|l: Option<JsonValue>| fate0_line_entry(l)),
            entries_view(out@) == lines@.take(i as int).filter_map(f),
        decreases n - i,
    {
        assert(lines@.take(i + 1).drop_last() =~= lines@.take(i as int));
        let ghost before = entries_view(out@);
        match &lines[i] {
            Some(v) => match fate0_record(v) {
                Some(e) => {
                    out.push(e);
                    assert(entries_view(out@) =~= before + seq![e@]);
                },
                None => {},
            },
            None => {},
        }
        i += 1;
    }
    assert(lines@.take(n as int) =~= lines@);
    out
}


// ------------------------------------------------------ merging the lists

/// The order of the merged list: by host, then by port.
pub open spec fn key_le(a: ProxyEntryView, b: ProxyEntryView) -> bool {
    seq_lt(a.host, b.host) || (a.host == b.host && a.port <= b.port)
}

/// `x` placed into `s` after every element whose key is at most its own,
/// counting from the end: insertion that keeps equal keys in arrival order.
pub open spec fn insert_by_key(s: Seq<ProxyEntryView>, x: ProxyEntryView) -> Seq<ProxyEntryView>
    decreases s.len(),
{
    if s.len() == 0 {
        seq![x]
    } else if key_le(s.last(), x) {
        s.push(x)
    } else {
        insert_by_key(s.drop_last(), x).push(s.last())
    }
}

/// Stable sort by host, then port: entries with equal keys keep their order.
pub open spec fn sort_by_key(s: Seq<ProxyEntryView>) -> Seq<ProxyEntryView>
    decreases s.len(),
{
    if s.len() == 0 {
        s
    } else {
        insert_by_key(sort_by_key(s.drop_last()), s.last())
    }
}

/// `s` with each run of equal consecutive entries reduced to its first.
pub open spec fn dedup_spec(s: Seq<ProxyEntryView>) -> Seq<ProxyEntryView>
    decreases s.len(),
{
    if s.len() <= 1 {
        s
    } else if s.last() == s[s.len() - 2] {
        dedup_spec(s.drop_last())
    } else {
        dedup_spec(s.drop_last()).push(s.last())
    }
}

/// The merged candidate list: all entries, stably sorted by host and port,
/// with consecutive repeats removed.
pub open spec fn merged_spec(all: Seq<ProxyEntryView>) -> Seq<ProxyEntryView> {
    dedup_spec(sort_by_key(all))
}

fn entry_key_le(a: &ProxyEntry, b: &ProxyEntry) -> (r: bool)
    ensures
        r == key_le(a@, b@),
{
    str_lt(a.host.as_str(), b.host.as_str()) || (str_eq(a.host.as_str(), b.host.as_str())
        && a.port <= b.port)
}

fn entry_eq(a: &ProxyEntry, b: &ProxyEntry) -> (r: bool)
    ensures
        r == (a@ == b@),
{
    str_eq(a.host.as_str(), b.host.as_str()) && a.port == b.port && str_eq(
        a.protocol.as_str(),
        b.protocol.as_str(),
    )
}

proof fn lemma_insert_by_key_at(s: Seq<ProxyEntryView>, x: ProxyEntryView, j: int)
    requires
        0 <= j <= s.len(),
        j == 0 || key_le(s[j - 1], x),
        forall|k: int| j <= k < s.len() ==> !key_le(#[trigger] s[k], x),
    ensures
        insert_by_key(s, x) == s.insert(j, x),
    decreases s.len(),
{
    if s.len() == 0 {
        assert(s.insert(j, x) =~= seq![x]);
    } else if j == s.len() {
        assert(s.insert(j, x) =~= s.push(x));
    } else {
        assert(!key_le(s.last(), x));
        lemma_insert_by_key_at(s.drop_last(), x, j);
        assert(s.insert(j, x) =~= s.drop_last().insert(j, x).push(s.last()));
    }
}

/// Adds `x` to `out` where `insert_by_key` puts it.
fn insert_entry(out: &mut Vec<ProxyEntry>, x: ProxyEntry)
    ensures
        entries_view(final(out)@) == insert_by_key(entries_view(old(out)@), x@),
{
    let ghost s = entries_view(out@);
    let mut j = out.len();
    while j > 0 && !entry_key_le(&out[j - 1], &x)
        invariant
            j <= out@.len(),
            s == entries_view(out@),
            forall|k: int| j <= k < s.len() ==> !key_le(#[trigger] s[k], x@),
        decreases j,
    {
        j -= 1;
    }
    proof {
        lemma_insert_by_key_at(s, x@, j as int);
    }
    let ghost xv = x@;
    out.insert(j, x);
    assert(entries_view(out@) =~= s.insert(j as int, xv));
}

proof fn lemma_dedup_last(s: Seq<ProxyEntryView>)
    requires
        s.len() > 0,
    ensures
        dedup_spec(s).len() > 0,
        dedup_spec(s).last() == s.last(),
    decreases s.len(),
{
    if s.len() > 1 && s.last() == s[s.len() - 2] {
        lemma_dedup_last(s.drop_last());
    }
}

/// Merges the three candidate lists into one, ordered by host and port
/// (stably), without consecutive repeats.
pub fn merge_candidates(
    geonode: Vec<ProxyEntry>,
    proxyscrape: Vec<ProxyEntry>,
    fate0: Vec<ProxyEntry>,
) -> (r: Vec<ProxyEntry>)
    ensures
        entries_view(r@) == merged_spec(
            entries_view(geonode@) + entries_view(proxyscrape@) + entries_view(fate0@),
        ),
{
    let ghost all = entries_view(geonode@) + entries_view(proxyscrape@) + entries_view(fate0@);
    let mut all_entries = geonode;
    let mut p = proxyscrape;
    let mut f = fate0;
    all_entries.append(&mut p);
    all_entries.append(&mut f);
    assert(entries_view(all_entries@) =~= all);
    let n = all_entries.len();
    let mut sorted: Vec<ProxyEntry> = Vec::new();
    let mut i: usize = 0;
    assert(all.take(0) =~= Seq::<ProxyEntryView>::empty());
    assert(entries_view(sorted@) =~= Seq::<ProxyEntryView>::empty());
    while i < n
        invariant
            i <= n,
            n == all_entries@.len(),
            entries_view(all_entries@) == all,
            entries_view(sorted@) == sort_by_key(all.take(i as int)),
        decreases n - i,
    {
        let x = all_entries[i].copy();
        insert_entry(&mut sorted, x);
        assert(all.take(i + 1).drop_last() =~= all.take(i as int));
        i += 1;
    }
    assert(all.take(n as int) =~= all);
    let ghost ss = entries_view(sorted@);
    let m = sorted.len();
    let mut out: Vec<ProxyEntry> = Vec::new();
    let mut k: usize = 0;
    assert(ss.take(0) =~= Seq::<ProxyEntryView>::empty());
    assert(entries_view(out@) =~= Seq::<ProxyEntryView>::empty());
    while k < m
        invariant
            k <= m,
            m == sorted@.len(),
            ss == entries_view(sorted@),
            entries_view(out@) == dedup_spec(ss.take(k as int)),
        decreases m - k,
    {
        let ghost before = entries_view(out@);
        assert(ss.take(k + 1).drop_last() =~= ss.take(k as int));
        if k > 0 {
            proof {
                lemma_dedup_last(ss.take(k as int));
            }
            assert(out@.len() > 0);
            let last = out.len() - 1;
            assert(entries_view(out@)[last as int] == out@[last as int]@);
            if entry_eq(&out[last], &sorted[k]) {
                assert(ss.take(k + 1).last() == ss.take(k + 1)[k - 1]);
            } else {
                out.push(sorted[k].copy());
                assert(entries_view(out@) =~= before.push(ss[k as int]));
            }
        } else {
            out.push(sorted[k].copy());
            assert(entries_view(out@) =~= seq![ss[0]]);
            assert(ss.take(1) =~= seq![ss[0]]);
        }
        k += 1;
    }
    assert(ss.take(m as int) =~= ss);
    out
}

pub open spec fn sorted_by_key(s: Seq<ProxyEntryView>) -> bool {
    forall|i: int, j: int| 0 <= i < j < s.len() ==> key_le(#[trigger] s[i], #[trigger] s[j])
}

proof fn lemma_key_le_total(a: ProxyEntryView, b: ProxyEntryView)
    ensures
        key_le(a, b) || key_le(b, a),
{
    lemma_seq_lt_total(a.host, b.host);
}

proof fn lemma_key_le_transitive(a: ProxyEntryView, b: ProxyEntryView, c: ProxyEntryView)
    requires
        key_le(a, b),
        key_le(b, c),
    ensures
        key_le(a, c),
{
    if seq_lt(a.host, b.host) && seq_lt(b.host, c.host) {
        lemma_seq_lt_transitive(a.host, b.host, c.host);
    }
}

proof fn lemma_insert_by_key_set(s: Seq<ProxyEntryView>, x: ProxyEntryView)
    ensures
        insert_by_key(s, x).to_set() == s.to_set().insert(x),
        insert_by_key(s, x).len() == s.len() + 1,
    decreases s.len(),
{
    if s.len() == 0 {
        assert(seq![x].to_set() =~= s.to_set().insert(x)) by {
            assert(seq![x][0] == x);
        }
    } else if key_le(s.last(), x) {
        s.lemma_push_to_set_commute(x);
    } else {
        let t = s.drop_last();
        lemma_insert_by_key_set(t, x);
        insert_by_key(t, x).lemma_push_to_set_commute(s.last());
        t.lemma_push_to_set_commute(s.last());
        assert(t.push(s.last()) =~= s);
        assert(insert_by_key(s, x).to_set() =~= s.to_set().insert(x));
    }
}

proof fn lemma_insert_by_key_sorted(s: Seq<ProxyEntryView>, x: ProxyEntryView)
    requires
        sorted_by_key(s),
    ensures
        sorted_by_key(insert_by_key(s, x)),
    decreases s.len(),
{
    if s.len() == 0 {
    } else if key_le(s.last(), x) {
        let r = s.push(x);
        assert forall|i: int, j: int| 0 <= i < j < r.len() implies key_le(
            #[trigger] r[i],
            #[trigger] r[j],
        ) by {
            if j == s.len() && i < s.len() - 1 {
                lemma_key_le_transitive(s[i], s.last(), x);
            }
        }
    } else {
        let t = s.drop_last();
        let last = s.last();
        lemma_key_le_total(last, x);
        lemma_insert_by_key_sorted(t, x);
        lemma_insert_by_key_set(t, x);
        let u = insert_by_key(t, x);
        let r = u.push(last);
        assert forall|i: int, j: int| 0 <= i < j < r.len() implies key_le(
            #[trigger] r[i],
            #[trigger] r[j],
        ) by {
            if j == u.len() {
                assert(u.to_set().contains(u[i]));
                if u[i] != x {
                    assert(t.to_set().contains(u[i]));
                    let k = choose|k: int| 0 <= k < t.len() && t[k] == u[i];
                    assert(s[k] == u[i]);
                    assert(key_le(s[k], s[s.len() - 1]));
                }
            }
        }
    }
}

proof fn lemma_sort_by_key(s: Seq<ProxyEntryView>)
    ensures
        sorted_by_key(sort_by_key(s)),
        sort_by_key(s).to_set() == s.to_set(),
    decreases s.len(),
{
    if s.len() > 0 {
        lemma_sort_by_key(s.drop_last());
        lemma_insert_by_key_sorted(sort_by_key(s.drop_last()), s.last());
        lemma_insert_by_key_set(sort_by_key(s.drop_last()), s.last());
        s.drop_last().lemma_push_to_set_commute(s.last());
        assert(s.drop_last().push(s.last()) =~= s);
    }
}

proof fn lemma_dedup(s: Seq<ProxyEntryView>)
    requires
        sorted_by_key(s),
    ensures
        sorted_by_key(dedup_spec(s)),
        dedup_spec(s).to_set() == s.to_set(),
        forall|i: int|
            0 <= i < dedup_spec(s).len() - 1 ==> #[trigger] dedup_spec(s)[i] != dedup_spec(s)[i + 1],
    decreases s.len(),
{
    if s.len() <= 1 {
    } else {
        let t = s.drop_last();
        assert(sorted_by_key(t));
        lemma_dedup(t);
        lemma_dedup_last(t);
        let d = dedup_spec(t);
        t.lemma_push_to_set_commute(s.last());
        assert(t.push(s.last()) =~= s);
        if s.last() == s[s.len() - 2] {
            assert(s.to_set() =~= t.to_set()) by {
                assert(t.to_set().contains(s.last()));
            }
        } else {
            let r = d.push(s.last());
            d.lemma_push_to_set_commute(s.last());
            assert forall|i: int, j: int| 0 <= i < j < r.len() implies key_le(
                #[trigger] r[i],
                #[trigger] r[j],
            ) by {
                if j == d.len() {
                    assert(d.to_set().contains(d[i]));
                    assert(t.to_set().contains(d[i]));
                    let k = choose|k: int| 0 <= k < t.len() && t[k] == d[i];
                    assert(s[k] == d[i]);
                }
            }
            assert forall|i: int| 0 <= i < r.len() - 1 implies #[trigger] r[i] != r[i + 1] by {
                if i == d.len() - 1 {
                    assert(d.last() == t.last());
                }
            }
        }
    }
}

/// The merged candidate list is ordered by host and port, holds no entry
/// twice in a row, and holds exactly the entries of the three lists.
pub proof fn lemma_merged_candidates(all: Seq<ProxyEntryView>)
    ensures
        sorted_by_key(merged_spec(all)),
        merged_spec(all).to_set() == all.to_set(),
        forall|i: int|
            0 <= i < merged_spec(all).len() - 1 ==> #[trigger] merged_spec(all)[i] != merged_spec(
                all,
            )[i + 1],
{
    lemma_sort_by_key(all);
    lemma_dedup(sort_by_key(all));
}

// ---------------------------------------------------------- the cache

/// How long, in nanoseconds, a fetched candidate list stays fresh: ten
/// minutes.
pub open spec fn refresh_interval_nanos() -> int {
    600_000_000_000int
}

/// Whether the candidate list is fetched again: when asked to, when it was
/// never fetched, or when more than ten minutes have passed since.
pub fn cache_needs_update(force_update: bool, nanos_since_update: Option<u128>) -> (r: bool)
    ensures
        r == (force_update || nanos_since_update is None || nanos_since_update.unwrap()
            > refresh_interval_nanos()),
{
    match nanos_since_update {
        None => true,
        Some(t) => force_update || t > 600_000_000_000,
    }
}

/// How many candidates are tried at most.
pub open spec fn max_tested() -> int {
    30
}

/// The candidates that are tried, in order: the first thirty.
pub fn candidates_to_test(list: &Vec<ProxyEntry>) -> (r: Vec<ProxyEntry>)
    ensures
        entries_view(r@) == entries_view(list@).take(
            if list@.len() < max_tested() {
                list@.len() as int
            } else {
                max_tested()
            },
        ),
{
    let n = if list.len() < 30 {
        list.len()
    } else {
        30
    };
    let mut out: Vec<ProxyEntry> = Vec::new();
    let mut i: usize = 0;
    while i < n
        invariant
            i <= n,
            n <= list@.len(),
            entries_view(out@) == entries_view(list@).take(i as int),
        decreases n - i,
    {
        let ghost before = entries_view(out@);
        let e = list[i].copy();
        out.push(e);
        assert(entries_view(out@) =~= before.push(list@[i as int]@));
        assert(entries_view(list@).take(i + 1) =~= entries_view(list@).take(i as int).push(
            list@[i as int]@,
        ));
        i += 1;
    }
    out
}

} // verus!
