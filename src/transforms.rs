use vstd::prelude::*;
use crate::models::Log;
use crate::text::{chars_of, push_char, string_of};

verus! {

broadcast use vstd::string::group_string_axioms;

/// A part made of decimal digits only.
pub const NUMERIC_PATTERN: &'static str = "^\\d+$";

/// A part that reads as a card number of one of the common issuers.
pub const CARD_PATTERN: &'static str = "^(?:4[0-9]{12}(?:[0-9]{3})?|[25][1-7][0-9]{14}|6(?:011|5[0-9][0-9])[0-9]{12}|3[47][0-9]{13}|3(?:0[0-5]|[68][0-9])[0-9]{11}|(?:2131|1800|35\\d{3})\\d{11})$";

/// Whether the regex crate finds a match of `pattern` in `text`.
pub uninterp spec fn regex_match(pattern: Seq<char>, text: Seq<char>) -> bool;

/// The text without its leading and trailing white space, as str::trim gives it.
pub uninterp spec fn trimmed(s: Seq<char>) -> Seq<char>;

/// Relies on regex::Regex::new and Regex::is_match: whether the pattern
/// matches the text (an invalid pattern matches nothing).
#[verifier::external_body]
fn regex_is_match(pattern: &str, text: &str) -> (r: bool)
    ensures
        r == regex_match(pattern@, text@),
{
    regex::Regex::new(pattern).map(|re| re.is_match(text)).unwrap_or(false)
}

/// Relies on str::trim: the text without leading and trailing white space.
#[verifier::external_body]
fn trim(s: &str) -> (r: String)
    ensures
        r@ == trimmed(s@),
{
    s.trim().to_owned()
}

/// What replaces a card number: sixteen bullets.
pub open spec fn card_mask() -> Seq<char> {
    Seq::new(16, |i: int| '\u{2022}')
}

pub open spec fn strings(v: Seq<String>) -> Seq<Seq<char>> {
    v.map_values(|s: String| s@)
}

/// Parts separated by single spaces.
pub open spec fn joined(ps: Seq<Seq<char>>) -> Seq<char>
    decreases ps.len(),
{
    if ps.len() == 0 {
        seq![]
    } else if ps.len() == 1 {
        ps[0]
    } else {
        joined(ps.drop_last()) + seq![' '] + ps.last()
    }
}

/// Parts put end to end.
pub open spec fn concat(ps: Seq<Seq<char>>) -> Seq<char>
    decreases ps.len(),
{
    if ps.len() == 0 {
        seq![]
    } else {
        concat(ps.drop_last()) + ps.last()
    }
}

pub open spec fn is_separator(c: char) -> bool {
    c == ' ' || c == '-'
}

/// The finished parts of a text split at spaces and dashes, and the part
/// being read.
pub open spec fn split_acc(t: Seq<char>) -> (Seq<Seq<char>>, Seq<char>)
    decreases t.len(),
{
    if t.len() == 0 {
        (seq![], seq![])
    } else {
        let (ps, cur) = split_acc(t.drop_last());
        if is_separator(t.last()) {
            (ps.push(cur), seq![])
        } else {
            (ps, cur.push(t.last()))
        }
    }
}

/// The parts of a text between its spaces and dashes, empty ones included.
pub open spec fn split_parts(t: Seq<char>) -> Seq<Seq<char>> {
    split_acc(t).0.push(split_acc(t).1)
}

/// The parts written so far, and how many numeric parts came in a row.
pub ghost struct Masking {
    pub message: Seq<Seq<char>>,
    pub counter: nat,
}

/// The last four parts, trimmed.
pub open spec fn last_four(msg: Seq<Seq<char>>) -> Seq<Seq<char>> {
    msg.skip(msg.len() - 4).map_values(|v: Seq<char>| trimmed(v))
}

/// One part of the text: a card number is masked; a run of four numeric
/// parts that reads as a card number once joined is masked as a whole; a
/// blank part is kept with the part before it; any other part ends a run.
pub open spec fn mask_step(m: Masking, part: Seq<char>) -> Masking {
    if regex_match(CARD_PATTERN@, part) {
        Masking { message: m.message.push(card_mask()), counter: m.counter }
    } else if regex_match(NUMERIC_PATTERN@, part) {
        let msg = m.message.push(part);
        if m.counter + 1 == 4 {
            let four = last_four(msg);
            let kept = msg.take(msg.len() - 4);
            if regex_match(CARD_PATTERN@, concat(four)) {
                Masking { message: kept.push(card_mask()), counter: 0 }
            } else {
                Masking { message: kept + four, counter: 4 }
            }
        } else {
            Masking { message: msg, counter: if m.counter < 4 { m.counter + 1 } else { 5 } }
        }
    } else if trimmed(part).len() == 0 && m.message.len() > 0 {
        Masking {
            message: m.message.update(m.message.len() - 1, m.message.last() + part + seq![' ']),
            counter: m.counter,
        }
    } else {
        Masking { message: m.message.push(part), counter: 0 }
    }
}

pub open spec fn mask_all(parts: Seq<Seq<char>>) -> Masking
    decreases parts.len(),
{
    if parts.len() == 0 {
        Masking { message: seq![], counter: 0 }
    } else {
        mask_step(mask_all(parts.drop_last()), parts.last())
    }
}

/// The text with its card numbers masked.
pub open spec fn masked_text(t: Seq<char>) -> Seq<char> {
    joined(mask_all(split_parts(t)).message)
}

pub open spec fn masking_of(message: Seq<String>, counter: usize) -> Masking {
    Masking { message: strings(message), counter: counter as nat }
}

/// Takes the last four parts off the message and returns them trimmed.
pub fn get_last_four(message: &mut Vec<String>) -> (r: Vec<String>)
    requires
        old(message)@.len() >= 4,
    ensures
        strings(final(message)@) == strings(old(message)@).take(old(message)@.len() - 4),
        strings(r@) == strings(old(message)@).skip(old(message)@.len() - 4).map_values(
            |v: Seq<char>| trimmed(v),
        ),
{
    let ghost m0 = message@;
    let at = message.len() - 4;
    let tail = message.split_off(at);
    let mut out: Vec<String> = Vec::new();
    let mut i: usize = 0;
    while i < tail.len()
        invariant
            i <= tail@.len(),
            tail@ == m0.skip(at as int),
            out@.len() == i,
            forall|k: int| 0 <= k < i ==> #[trigger] out@[k]@ == trimmed(tail@[k]@),
        decreases tail@.len() - i,
    {
        let t = trim(tail[i].as_str());
        out.push(t);
        i = i + 1;
    }
    assert(strings(out@) =~= strings(tail@).map_values(|v: Seq<char>| trimmed(v)));
    assert(strings(message@) =~= strings(m0).take(m0.len() - 4));
    assert(strings(tail@) =~= strings(m0).skip(m0.len() - 4));
    out
}

fn mask_string() -> (r: String)
    ensures
        r@ == card_mask(),
{
    let mut s = String::new();
    let mut i: usize = 0;
    while i < 16
        invariant
            i <= 16,
            s@ == Seq::new(i as nat, |k: int| '\u{2022}'),
        decreases 16 - i,
    {
        push_char(&mut s, '\u{2022}');
        i = i + 1;
        assert(s@ =~= Seq::new(i as nat, |k: int| '\u{2022}'));
    }
    s
}

fn concat_strings(ps: &Vec<String>) -> (r: String)
    ensures
        r@ == concat(strings(ps@)),
{
    let mut out = String::new();
    let mut i: usize = 0;
    while i < ps.len()
        invariant
            i <= ps@.len(),
            out@ == concat(strings(ps@.subrange(0, i as int))),
        decreases ps@.len() - i,
    {
        out.append(ps[i].as_str());
        assert(strings(ps@.subrange(0, i as int + 1)).drop_last() =~= strings(
            ps@.subrange(0, i as int),
        ));
        i = i + 1;
    }
    assert(ps@.subrange(0, ps@.len() as int) =~= ps@);
    out
}

fn join_spaced(ps: &Vec<String>) -> (r: String)
    ensures
        r@ == joined(strings(ps@)),
{
    let mut out = String::new();
    let mut i: usize = 0;
    while i < ps.len()
        invariant
            i <= ps@.len(),
            out@ == joined(strings(ps@.subrange(0, i as int))),
        decreases ps@.len() - i,
    {
        let ghost s1 = strings(ps@.subrange(0, i as int + 1));
        assert(s1.drop_last() =~= strings(ps@.subrange(0, i as int)));
        if i > 0 {
            out.append(" ");
            proof {
                reveal_strlit(" ");
                assert(" "@ =~= seq![' ']);
            }
        }
        out.append(ps[i].as_str());
        i = i + 1;
    }
    assert(ps@.subrange(0, ps@.len() as int) =~= ps@);
    out
}

/// Applies one part to the message.
fn mask_part(message: &mut Vec<String>, counter: &mut usize, part: String)
    requires
        *old(counter) <= 5,
        old(message)@.len() >= *old(counter),
    ensures
        *final(counter) <= 5,
        final(message)@.len() >= *final(counter),
        masking_of(final(message)@, *final(counter)) == mask_step(
            masking_of(old(message)@, *old(counter)),
            part@,
        ),
{
    let ghost m0 = strings(message@);
    if regex_is_match(CARD_PATTERN, part.as_str()) {
        message.push(mask_string());
        assert(strings(message@) =~= m0.push(card_mask()));
    } else if regex_is_match(NUMERIC_PATTERN, part.as_str()) {
        message.push(part);
        let ghost msg = strings(message@);
        assert(msg =~= m0.push(part@));
        if *counter + 1 == 4 {
            let mut four = get_last_four(message);
            let joined_four = concat_strings(&four);
            assert(strings(four@) =~= last_four(msg));
            if regex_is_match(CARD_PATTERN, joined_four.as_str()) {
                message.push(mask_string());
                assert(strings(message@) =~= msg.take(msg.len() - 4).push(card_mask()));
                *counter = 0;
            } else {
                message.append(&mut four);
                assert(strings(message@) =~= msg.take(msg.len() - 4) + last_four(msg));
                *counter = 4;
            }
        } else {
            *counter = if *counter < 4 { *counter + 1 } else { 5 };
        }
    } else {
        let t = trim(part.as_str());
        if t.unicode_len() == 0 && message.len() > 0 {
            let last = message.len() - 1;
            let mut text = message[last].clone();
            text.append(part.as_str());
            text.append(" ");
            proof {
                reveal_strlit(" ");
                assert(" "@ =~= seq![' ']);
            }
            message.set(last, text);
            assert(strings(message@) =~= m0.update(m0.len() - 1, m0.last() + part@ + seq![' ']));
        } else {
            message.push(part);
            assert(strings(message@) =~= m0.push(part@));
            *counter = 0;
        }
    }
}

/// Masks card numbers in log text, whether written whole or in groups
/// separated by spaces or dashes.
pub struct CreditCardTransform;

impl CreditCardTransform {
    /// The text with its card numbers masked.
    pub fn mask(&self, text: &str) -> (r: String)
        ensures
            r@ == masked_text(text@),
    {
        let cs = chars_of(text);
        let mut message: Vec<String> = Vec::new();
        let mut counter: usize = 0;
        let mut cur: Vec<char> = Vec::new();
        let mut i: usize = 0;
        assert(strings(message@) =~= Seq::<Seq<char>>::empty());
        assert(cs@.subrange(0, 0) =~= Seq::<char>::empty());
        while i < cs.len()
            invariant
                i <= cs@.len(),
                cs@ == text@,
                counter <= 5,
                message@.len() >= counter,
                split_acc(cs@.subrange(0, i as int)).1 == cur@,
                mask_all(split_acc(cs@.subrange(0, i as int)).0) == masking_of(message@, counter),
            decreases cs@.len() - i,
        {
            let c = cs[i];
            let ghost pre = cs@.subrange(0, i as int);
            assert(cs@.subrange(0, i as int + 1).drop_last() =~= pre);
            if c == ' ' || c == '-' {
                let part = string_of(cur.as_slice());
                let ghost ps = split_acc(pre).0.push(cur@);
                assert(ps.drop_last() =~= split_acc(pre).0);
                mask_part(&mut message, &mut counter, part);
                cur = Vec::new();
            } else {
                cur.push(c);
            }
            i = i + 1;
        }
        assert(cs@.subrange(0, cs@.len() as int) =~= cs@);
        let part = string_of(cur.as_slice());
        let ghost ps = split_parts(cs@);
        assert(ps.drop_last() =~= split_acc(cs@).0);
        mask_part(&mut message, &mut counter, part);
        join_spaced(&message)
    }

    /// Masks the card numbers in the entry's text.
    pub fn apply(&self, log: &mut Log)
        ensures
            final(log).text@ == masked_text(old(log).text@),
            final(log).timestamp == old(log).timestamp,
            final(log).priority == old(log).priority,
    {
        let masked = self.mask(log.text.as_str());
        log.text = masked;
    }
}

} // verus!

verus! {

/// How the console shows an instant.
pub const CONSOLE_TIME_FORMAT: &'static str = "[year]-[month]-[day] [hour]:[minute]:[second] [offset_hour sign:mandatory]";

/// The text the time crate writes for an instant (UTC) under a format description.
pub uninterp spec fn formatted_instant(unix_nanos: int, description: Seq<char>) -> Seq<char>;

/// Relies on time::format_description::parse and OffsetDateTime::format:
/// the instant in UTC written under the description; `None` when the
/// instant is out of range or the description cannot be used.
#[verifier::external_body]
fn format_instant(unix_nanos: i128, description: &str) -> (r: Option<String>)
    ensures
        r matches Some(t) ==> t@ == formatted_instant(unix_nanos as int, description@),
{
    let items = time::format_description::parse(description).ok()?;
    let t = time::OffsetDateTime::from_unix_timestamp_nanos(unix_nanos).ok()?;
    t.format(&items).ok()
}

/// Echoes entries to the console; it leaves the entry as it is.
pub struct ConsoleTransform;

impl ConsoleTransform {
    /// The line shown for an entry: `[instant] [label]: text`; `None` when
    /// its instant cannot be written.
    pub fn line(&self, log: &Log) -> (r: Option<String>)
        ensures
            r matches Some(t) ==> t@ == "["@ + formatted_instant(
                log.timestamp.unix_nanos as int,
                CONSOLE_TIME_FORMAT@,
            ) + "] ["@ + crate::models::priority_label(log.priority) + "]: "@ + log.text@,
    {
        match format_instant(log.timestamp.unix_nanos, CONSOLE_TIME_FORMAT) {
            None => None,
            Some(stamp) => {
                let mut out = String::from_str("[");
                out.append(stamp.as_str());
                out.append("] [");
                let label = log.priority.to_string();
                out.append(label.as_str());
                out.append("]: ");
                out.append(log.text.as_str());
                Some(out)
            },
        }
    }
}

/// A transform that can stand in the list.
#[derive(Clone, Copy, Debug, PartialEq, Eq, Structural)]
pub enum TransformKind {
    Console,
    CreditCard,
}

/// What one transform makes of a text.
pub open spec fn apply_one(k: TransformKind, t: Seq<char>) -> Seq<char> {
    match k {
        TransformKind::Console => t,
        TransformKind::CreditCard => masked_text(t),
    }
}

/// What the transforms make of a text, applied in list order.
pub open spec fn apply_kinds(ks: Seq<TransformKind>, t: Seq<char>) -> Seq<char>
    decreases ks.len(),
{
    if ks.len() == 0 {
        t
    } else {
        apply_one(ks.last(), apply_kinds(ks.drop_last(), t))
    }
}

/// The transforms applied to every entry before it is queued, in order.
pub struct Transforms {
    kinds: Vec<TransformKind>,
}

impl Transforms {
    pub closed spec fn kinds(&self) -> Seq<TransformKind> {
        self.kinds@
    }

    /// The console echo alone.
    pub fn new() -> (r: Transforms)
        ensures
            r.kinds() == seq![TransformKind::Console],
    {
        Transforms { kinds: vec![TransformKind::Console] }
    }

    /// Puts the card-number sanitizer first, when `add` holds.
    pub fn add_credit_card_sanitizer(&mut self, add: bool)
        ensures
            final(self).kinds() == if add {
                seq![TransformKind::CreditCard] + old(self).kinds()
            } else {
                old(self).kinds()
            },
    {
        if add {
            self.kinds.insert(0, TransformKind::CreditCard);
            assert(self.kinds@ =~= seq![TransformKind::CreditCard] + old(self).kinds());
        }
    }

    /// The transforms, in order.
    pub fn list(&self) -> (r: Vec<TransformKind>)
        ensures
            r@ == self.kinds(),
    {
        let mut out: Vec<TransformKind> = Vec::new();
        let mut i: usize = 0;
        while i < self.kinds.len()
            invariant
                i <= self.kinds@.len(),
                out@ == self.kinds@.subrange(0, i as int),
            decreases self.kinds@.len() - i,
        {
            out.push(self.kinds[i]);
            i = i + 1;
            assert(out@ =~= self.kinds@.subrange(0, i as int));
        }
        assert(self.kinds@.subrange(0, self.kinds@.len() as int) =~= self.kinds@);
        out
    }

    /// Whether the entries are echoed to the console.
    pub fn echoes(&self) -> (r: bool)
        ensures
            r == self.kinds().contains(TransformKind::Console),
    {
        let mut i: usize = 0;
        while i < self.kinds.len()
            invariant
                i <= self.kinds@.len(),
                forall|k: int| 0 <= k < i ==> self.kinds@[k] != TransformKind::Console,
            decreases self.kinds@.len() - i,
        {
            if self.kinds[i] == TransformKind::Console {
                return true;
            }
            i = i + 1;
        }
        false
    }

    /// Rewrites the entry's text with every transform, in order.
    pub fn apply(&self, log: &mut Log)
        ensures
            final(log).text@ == apply_kinds(self.kinds(), old(log).text@),
            final(log).timestamp == old(log).timestamp,
            final(log).priority == old(log).priority,
    {
        let mut i: usize = 0;
        while i < self.kinds.len()
            invariant
                i <= self.kinds@.len(),
                log.text@ == apply_kinds(self.kinds@.subrange(0, i as int), old(log).text@),
                log.timestamp == old(log).timestamp,
                log.priority == old(log).priority,
            decreases self.kinds@.len() - i,
        {
            assert(self.kinds@.subrange(0, i as int + 1).drop_last() =~= self.kinds@.subrange(
                0,
                i as int,
            ));
            match self.kinds[i] {
                TransformKind::Console => {},
                TransformKind::CreditCard => {
                    CreditCardTransform.apply(log);
                },
            }
            i = i + 1;
        }
        assert(self.kinds@.subrange(0, self.kinds@.len() as int) =~= self.kinds@);
    }
}

impl Default for Transforms {
    fn default() -> (r: Transforms)
        ensures
            r.kinds() == seq![TransformKind::Console],
    {
        Transforms::new()
    }
}

} // verus!
