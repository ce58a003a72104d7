use vstd::prelude::*;
use crate::models::{Log, Priority, Timestamp, priority_name, priority_of_name, lemma_priority_name_round_trip};
use crate::text::{chars_of, string_of};

verus! {

broadcast use vstd::string::group_string_axioms;

/// The first instant that the RFC 3339 writer accepts: 0000-01-01T00:00:00Z.
pub const MIN_RFC3339_NANOS: i128 = -62_167_219_200_000_000_000;

/// The last instant that the RFC 3339 writer accepts: the end of the year 9999.
pub const MAX_RFC3339_NANOS: i128 = 253_402_300_799_999_999_999;

/// The text that serde_json writes for a JSON object whose fields are strings.
pub uninterp spec fn json_object_text(fields: Map<Seq<char>, Seq<char>>) -> Seq<char>;

/// What serde_json reads from a text as a JSON object whose fields are strings.
pub uninterp spec fn json_string_fields(text: Seq<char>) -> Option<Map<Seq<char>, Seq<char>>>;

/// The RFC 3339 text that the time crate writes for an instant (UTC).
pub uninterp spec fn rfc3339_text(unix_nanos: int) -> Seq<char>;

/// The instant that the time crate reads from an RFC 3339 text.
pub uninterp spec fn rfc3339_instant(text: Seq<char>) -> Option<int>;

/// The map that a list of key/value pairs stands for.
pub open spec fn fields_map(s: Seq<(String, String)>) -> Map<Seq<char>, Seq<char>>
    decreases s.len(),
{
    if s.len() == 0 {
        Map::empty()
    } else {
        fields_map(s.drop_last()).insert(s.last().0@, s.last().1@)
    }
}

pub open spec fn keys_distinct(s: Seq<(String, String)>) -> bool {
    forall|i: int, j: int| 0 <= i < j < s.len() ==> s[i].0@ != s[j].0@
}

/// Relies on serde_json::to_string on a map of strings: the compact JSON
/// object, which serde_json reads back as the same map and which holds no
/// line break (control characters inside strings are escaped).
#[verifier::external_body]
fn write_json_object(fields: &Vec<(String, String)>) -> (r: String)
    requires
        keys_distinct(fields@),
    ensures
        r@ == json_object_text(fields_map(fields@)),
        json_string_fields(r@) == Some(fields_map(fields@)),
        !r@.contains('\n'),
{
    let map: std::collections::BTreeMap<&str, &str> =
        fields.iter().map(|(k, v)| (k.as_str(), v.as_str())).collect();
    serde_json::to_string(&map).unwrap_or_default()
}

/// Relies on serde_json::from_str into a map from strings to strings.
#[verifier::external_body]
fn read_json_object(text: &str) -> (r: Option<Vec<(String, String)>>)
    ensures
        r is None <==> json_string_fields(text@) is None,
        r matches Some(v) ==> keys_distinct(v@) && json_string_fields(text@) == Some(
            fields_map(v@),
        ),
{
    serde_json::from_str::<std::collections::BTreeMap<String, String>>(text).ok().map(
        |m| m.into_iter().collect(),
    )
}

/// Relies on time's OffsetDateTime::from_unix_timestamp_nanos and its Rfc3339
/// writer: in UTC, years 0 to 9999 are written, and the Rfc3339 parser reads
/// the text back as the same instant.
#[verifier::external_body]
fn format_rfc3339(unix_nanos: i128) -> (r: Option<String>)
    ensures
        r is Some <==> MIN_RFC3339_NANOS <= unix_nanos <= MAX_RFC3339_NANOS,
        r matches Some(t) ==> t@ == rfc3339_text(unix_nanos as int) && rfc3339_instant(t@)
            == Some(unix_nanos as int),
{
    let t = time::OffsetDateTime::from_unix_timestamp_nanos(unix_nanos).ok()?;
    t.format(&time::format_description::well_known::Rfc3339).ok()
}

/// Relies on time's OffsetDateTime::parse with the Rfc3339 description.
#[verifier::external_body]
fn parse_rfc3339(text: &str) -> (r: Option<i128>)
    ensures
        match r {
            Some(n) => rfc3339_instant(text@) == Some(n as int),
            None => rfc3339_instant(text@) is None,
        },
{
    time::OffsetDateTime::parse(text, &time::format_description::well_known::Rfc3339).ok().map(
        |t| t.unix_timestamp_nanos(),
    )
}

/// What the codec sees of an entry.
pub ghost struct LogView {
    pub timestamp: Timestamp,
    pub priority: Priority,
    pub text: Seq<char>,
}

impl View for Log {
    type V = LogView;

    open spec fn view(&self) -> LogView {
        LogView { timestamp: self.timestamp, priority: self.priority, text: self.text@ }
    }
}

pub open spec fn views(s: Seq<Log>) -> Seq<LogView> {
    s.map_values(|e: Log| e@)
}

/// An entry whose instant can be written as RFC 3339.
pub open spec fn encodable(v: LogView) -> bool {
    MIN_RFC3339_NANOS <= v.timestamp.unix_nanos <= MAX_RFC3339_NANOS
}

/// The JSON fields of an encodable entry.
pub open spec fn entry_fields(v: LogView) -> Map<Seq<char>, Seq<char>> {
    Map::empty().insert("priority"@, priority_name(v.priority)).insert("text"@, v.text).insert(
        "timestamp"@,
        rfc3339_text(v.timestamp.unix_nanos as int),
    )
}

/// The one-line JSON text of an encodable entry.
pub open spec fn entry_text(v: LogView) -> Seq<char> {
    json_object_text(entry_fields(v))
}

/// The entry that a line holds, if it holds one: a JSON object with string
/// fields `timestamp` (RFC 3339), `priority` (a wire name) and `text`.
pub open spec fn decoded_line(line: Seq<char>) -> Option<LogView> {
    match json_string_fields(line) {
        None => None,
        Some(m) => {
            if m.contains_key("timestamp"@) && m.contains_key("priority"@) && m.contains_key(
                "text"@,
            ) {
                match (rfc3339_instant(m["timestamp"@]), priority_of_name(m["priority"@])) {
                    (Some(n), Some(p)) => Some(
                        LogView {
                            timestamp: Timestamp { unix_nanos: n as i128 },
                            priority: p,
                            text: m["text"@],
                        },
                    ),
                    _ => None,
                }
            } else {
                None
            }
        },
    }
}

/// Lines of a text as a line reader yields them: split at each line break,
/// with an unterminated last line kept when it is not empty.
pub open spec fn split_lines(t: Seq<char>) -> (Seq<Seq<char>>, Seq<char>)
    decreases t.len(),
{
    if t.len() == 0 {
        (seq![], seq![])
    } else {
        let (ls, cur) = split_lines(t.drop_last());
        if t.last() == '\n' {
            (ls.push(cur), seq![])
        } else {
            (ls, cur.push(t.last()))
        }
    }
}

pub open spec fn lines_of(t: Seq<char>) -> Seq<Seq<char>> {
    let (ls, cur) = split_lines(t);
    if cur.len() == 0 {
        ls
    } else {
        ls.push(cur)
    }
}

/// The entries of the lines that hold one, in order; the other lines are skipped.
pub open spec fn decoded_lines(ls: Seq<Seq<char>>) -> Seq<LogView>
    decreases ls.len(),
{
    if ls.len() == 0 {
        seq![]
    } else {
        match decoded_line(ls.last()) {
            Some(v) => decoded_lines(ls.drop_last()).push(v),
            None => decoded_lines(ls.drop_last()),
        }
    }
}

/// The entries that a backlog file holds.
pub open spec fn decoded_file(t: Seq<char>) -> Seq<LogView> {
    decoded_lines(lines_of(t))
}

/// The encodable entries, in order.
pub open spec fn encodable_only(s: Seq<LogView>) -> Seq<LogView>
    decreases s.len(),
{
    if s.len() == 0 {
        seq![]
    } else if encodable(s.last()) {
        encodable_only(s.drop_last()).push(s.last())
    } else {
        encodable_only(s.drop_last())
    }
}

/// The text of a backlog file holding the given entries: one line each.
pub open spec fn backlog_text(s: Seq<LogView>) -> Seq<char>
    decreases s.len(),
{
    if s.len() == 0 {
        seq![]
    } else if encodable(s.last()) {
        backlog_text(s.drop_last()) + entry_text(s.last()) + seq!['\n']
    } else {
        backlog_text(s.drop_last())
    }
}

proof fn lemma_fields_lookup(s: Seq<(String, String)>, i: int)
    requires
        keys_distinct(s),
        0 <= i < s.len(),
    ensures
        fields_map(s).contains_key(s[i].0@),
        fields_map(s)[s[i].0@] == s[i].1@,
    decreases s.len(),
{
    if i < s.len() - 1 {
        lemma_fields_lookup(s.drop_last(), i);
    }
}

proof fn lemma_fields_absent(s: Seq<(String, String)>, k: Seq<char>)
    requires
        forall|i: int| 0 <= i < s.len() ==> s[i].0@ != k,
    ensures
        !fields_map(s).contains_key(k),
    decreases s.len(),
{
    if s.len() > 0 {
        lemma_fields_absent(s.drop_last(), k);
    }
}

proof fn lemma_split_no_break(a: Seq<char>, l: Seq<char>)
    requires
        !l.contains('\n'),
    ensures
        split_lines(a + l) == (split_lines(a).0, split_lines(a).1 + l),
    decreases l.len(),
{
    if l.len() == 0 {
        assert(a + l =~= a);
        assert(split_lines(a).1 + l =~= split_lines(a).1);
    } else {
        let l0 = l.drop_last();
        assert(!l0.contains('\n')) by {
            if l0.contains('\n') {
                let k = choose|k: int| 0 <= k < l0.len() && l0[k] == '\n';
                assert(l[k] == '\n');
            }
        }
        lemma_split_no_break(a, l0);
        assert((a + l).drop_last() =~= a + l0);
        assert((a + l).last() == l.last());
        assert(l.last() != '\n') by {
            assert(l[l.len() - 1] == l.last());
        }
        assert(split_lines(a).1 + l0 + seq![l.last()] =~= split_lines(a).1 + l);
        assert((split_lines(a).1 + l0).push(l.last()) =~= split_lines(a).1 + l);
    }
}

proof fn lemma_split_line(a: Seq<char>, l: Seq<char>)
    requires
        split_lines(a).1.len() == 0,
        !l.contains('\n'),
    ensures
        split_lines(a + l + seq!['\n']) == (split_lines(a).0.push(l), Seq::<char>::empty()),
{
    lemma_split_no_break(a, l);
    assert((a + l + seq!['\n']).drop_last() =~= a + l);
    assert(split_lines(a).1 + l =~= l);
}

/// Reading back a written line gives the entry.
proof fn lemma_line_round_trip(v: LogView)
    requires
        encodable(v),
        json_string_fields(entry_text(v)) == Some(entry_fields(v)),
        rfc3339_instant(rfc3339_text(v.timestamp.unix_nanos as int)) == Some(
            v.timestamp.unix_nanos as int,
        ),
    ensures
        decoded_line(entry_text(v)) == Some(v),
{
    reveal_strlit("priority");
    reveal_strlit("text");
    reveal_strlit("timestamp");
    assert("priority"@.len() == 8 && "text"@.len() == 4 && "timestamp"@.len() == 9);
    lemma_priority_name_round_trip(v.priority);
    let m = entry_fields(v);
    assert(m["priority"@] == priority_name(v.priority));
    assert(m["text"@] == v.text);
}

/// Encodes one entry as a line of JSON (without the line break); `None` when
/// its instant cannot be written as RFC 3339.
pub fn encode_line(e: &Log) -> (r: Option<String>)
    ensures
        r is Some <==> encodable(e@),
        r matches Some(t) ==> t@ == entry_text(e@) && !t@.contains('\n') && json_string_fields(t@)
            == Some(entry_fields(e@)) && rfc3339_instant(rfc3339_text(e.timestamp.unix_nanos as int))
            == Some(e.timestamp.unix_nanos as int),
{
    let stamp = format_rfc3339(e.timestamp.unix_nanos);
    match stamp {
        None => None,
        Some(ts) => {
            let mut fields: Vec<(String, String)> = Vec::new();
            fields.push((String::from_str("priority"), e.priority.name()));
            fields.push((String::from_str("text"), e.text.clone()));
            fields.push((String::from_str("timestamp"), ts));
            proof {
                reveal_strlit("priority");
                reveal_strlit("text");
                reveal_strlit("timestamp");
                assert("priority"@.len() == 8 && "text"@.len() == 4 && "timestamp"@.len() == 9);
                let s = fields@;
                assert(s.drop_last().drop_last().drop_last() =~= Seq::<(String, String)>::empty());
                let s1 = s.drop_last().drop_last();
                let s2 = s.drop_last();
                assert(s1.drop_last() =~= Seq::<(String, String)>::empty());
                assert(fields_map(s1.drop_last()) == Map::<Seq<char>, Seq<char>>::empty());
                assert(s1.last() == s[0] && s2.last() == s[1] && s.last() == s[2]);
                assert(s[0].0@ == "priority"@ && s[0].1@ == priority_name(e.priority));
                assert(fields_map(s1) == Map::<Seq<char>, Seq<char>>::empty().insert(
                    "priority"@,
                    priority_name(e.priority),
                ));
                assert(fields_map(s2) == fields_map(s1).insert("text"@, e.text@));
                assert(fields_map(s) =~= entry_fields(e@));
            }
            let line = write_json_object(&fields);
            Some(line)
        },
    }
}

/// Index of the field with the given key.
fn find_field(fields: &Vec<(String, String)>, key: &str) -> (r: Option<usize>)
    ensures
        match r {
            Some(i) => i < fields@.len() && fields@[i as int].0@ == key@,
            None => forall|i: int| 0 <= i < fields@.len() ==> fields@[i].0@ != key@,
        },
{
    let wanted = key.to_owned();
    let mut i: usize = 0;
    while i < fields.len()
        invariant
            i <= fields@.len(),
            wanted@ == key@,
            forall|j: int| 0 <= j < i ==> fields@[j].0@ != key@,
        decreases fields@.len() - i,
    {
        if fields[i].0 == wanted {
            return Some(i);
        }
        i = i + 1;
    }
    None
}

/// Reads one entry from a line of the backlog file; `None` for a line that
/// does not hold one.
pub fn decode_line(line: &str) -> (r: Option<Log>)
    ensures
        match r {
            Some(e) => decoded_line(line@) == Some(e@),
            None => decoded_line(line@) is None,
        },
{
    let fields = match read_json_object(line) {
        None => return None,
        Some(f) => f,
    };
    let ghost m = fields_map(fields@);
    let ts_at = find_field(&fields, "timestamp");
    let pr_at = find_field(&fields, "priority");
    let tx_at = find_field(&fields, "text");
    proof {
        if let Some(i) = ts_at {
            lemma_fields_lookup(fields@, i as int);
        } else {
            lemma_fields_absent(fields@, "timestamp"@);
        }
        if let Some(i) = pr_at {
            lemma_fields_lookup(fields@, i as int);
        } else {
            lemma_fields_absent(fields@, "priority"@);
        }
        if let Some(i) = tx_at {
            lemma_fields_lookup(fields@, i as int);
        } else {
            lemma_fields_absent(fields@, "text"@);
        }
    }
    match (ts_at, pr_at, tx_at) {
        (Some(ti), Some(pi), Some(xi)) => {
            let nanos = parse_rfc3339(fields[ti].1.as_str());
            let priority = Priority::from_name(fields[pi].1.as_str());
            match (nanos, priority) {
                (Some(n), Some(p)) => {
                    let e = Log::at(Timestamp { unix_nanos: n }, p, fields[xi].1.clone());
                    Some(e)
                },
                _ => None,
            }
        },
        _ => None,
    }
}

/// Writes the backlog file's text: one JSON line per entry, each ended by a
/// line break. An entry whose instant cannot be written is left out; reading
/// the text back gives the other entries, in order.
pub fn encode_backlog(entries: &Vec<Log>) -> (r: String)
    ensures
        r@ == backlog_text(views(entries@)),
        decoded_file(r@) == encodable_only(views(entries@)),
{
    let mut out = String::new();
    let mut i: usize = 0;
    let ghost mut lines: Seq<Seq<char>> = seq![];
    while i < entries.len()
        invariant
            i <= entries@.len(),
            out@ == backlog_text(views(entries@.subrange(0, i as int))),
            split_lines(out@) == (lines, Seq::<char>::empty()),
            decoded_lines(lines) == encodable_only(views(entries@.subrange(0, i as int))),
        decreases entries@.len() - i,
    {
        let ghost before = out@;
        let line = encode_line(&entries[i]);
        proof {
            let s = views(entries@.subrange(0, i as int + 1));
            assert(s.drop_last() =~= views(entries@.subrange(0, i as int)));
            assert(s.last() == entries@[i as int]@);
        }
        match line {
            Some(l) => {
                out.append(l.as_str());
                out.append("\n");
                proof {
                    reveal_strlit("\n");
                    assert("\n"@ =~= seq!['\n']);
                    lemma_split_line(before, l@);
                    assert(before + l@ + seq!['\n'] =~= out@);
                    lemma_line_round_trip(entries@[i as int]@);
                    let nl = lines.push(l@);
                    assert(nl.drop_last() =~= lines);
                    lines = nl;
                }
            },
            None => {},
        }
        i = i + 1;
    }
    assert(entries@.subrange(0, entries@.len() as int) =~= entries@);
    out
}

/// Reads the entries of a backlog file's text, in order; lines that do not
/// hold an entry are skipped.
pub fn decode_backlog(text: &str) -> (r: Vec<Log>)
    ensures
        views(r@) == decoded_file(text@),
{
    let cs = chars_of(text);
    let mut out: Vec<Log> = Vec::new();
    let mut cur: Vec<char> = Vec::new();
    let mut i: usize = 0;
    while i < cs.len()
        invariant
            i <= cs@.len(),
            cs@ == text@,
            split_lines(cs@.subrange(0, i as int)).1 == cur@,
            views(out@) == decoded_lines(split_lines(cs@.subrange(0, i as int)).0),
        decreases cs@.len() - i,
    {
        let c = cs[i];
        let ghost pre = cs@.subrange(0, i as int);
        assert(cs@.subrange(0, i as int + 1).drop_last() =~= pre);
        if c == '\n' {
            let line = string_of(cur.as_slice());
            let decoded = decode_line(line.as_str());
            let ghost ls = split_lines(pre).0.push(cur@);
            assert(ls.drop_last() =~= split_lines(pre).0);
            match decoded {
                Some(e) => {
                    out.push(e);
                    assert(views(out@) =~= decoded_lines(split_lines(pre).0).push(e@));
                },
                None => {},
            }
            cur = Vec::new();
        } else {
            cur.push(c);
        }
        i = i + 1;
    }
    assert(cs@.subrange(0, cs@.len() as int) =~= cs@);
    if cur.len() > 0 {
        let line = string_of(cur.as_slice());
        let decoded = decode_line(line.as_str());
        let ghost ls = split_lines(cs@).0.push(cur@);
        assert(ls.drop_last() =~= split_lines(cs@).0);
        match decoded {
            Some(e) => {
                out.push(e);
                assert(views(out@) =~= decoded_lines(split_lines(cs@).0).push(e@));
            },
            None => {},
        }
    }
    out
}

} // verus!
