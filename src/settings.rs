use vstd::prelude::*;

use crate::pool::Config;

verus! {

/// The user's persisted choices.
#[derive(Clone, Copy, Debug, PartialEq, Eq, Structural)]
pub struct Settings {
    /// Draw the image file from the add-on directory instead of the built-in icon.
    pub use_file: bool,
    /// Pixels travelled per axis in one 16 ms frame.
    pub speed: u32,
    /// Number of sprites.
    pub count: u32,
    /// Keep the sprites, at a fifth of their size, while the host is in gameplay.
    pub show_during_gameplay: bool,
}

/// The decimal digits of `n`, most significant first, with no leading zero.
pub open spec fn decimal(n: nat) -> Seq<u8>
    decreases n,
{
    if n < 10 {
        seq![(48 + n) as u8]
    } else {
        decimal(n / 10).push((48 + n % 10) as u8)
    }
}

/// `true` or `false`, spelled out.
pub open spec fn flag_text(b: bool) -> Seq<u8> {
    if b {
        seq![116u8, 114u8, 117u8, 101u8]
    } else {
        seq![102u8, 97u8, 108u8, 115u8, 101u8]
    }
}

/// The settings file: speed, count, image-file flag and gameplay flag, one per
/// line, with no newline after the last.
pub open spec fn encoded(s: Settings) -> Seq<u8> {
    decimal(s.speed as nat) + seq![10u8] + decimal(s.count as nat) + seq![10u8] + flag_text(
        s.use_file,
    ) + seq![10u8] + flag_text(s.show_during_gameplay)
}

/// A line of the settings file that does not hold a value of its field.
#[derive(Clone, Copy, Debug, PartialEq, Eq, Structural)]
pub struct SettingsError {
    /// Zero-based index of the offending line.
    pub line: usize,
}

/// Where the line that runs through index `i` ends: the next newline, or the
/// end of the text.
pub open spec fn line_end(t: Seq<u8>, i: nat) -> nat
    decreases t.len() - i,
{
    if i >= t.len() || t[i as int] == 10 {
        i
    } else {
        line_end(t, i + 1)
    }
}

/// Where line `k` starts (it exists only if that is inside the text).
pub open spec fn line_start(t: Seq<u8>, k: nat) -> nat
    decreases k,
{
    if k == 0 {
        0
    } else {
        line_end(t, line_start(t, (k - 1) as nat)) + 1
    }
}

/// The text holds a line `k`: a final newline opens no new line.
pub open spec fn has_line(t: Seq<u8>, k: nat) -> bool {
    line_start(t, k) < t.len()
}

/// Line `k` without its newline, and without a carriage return before it.
pub open spec fn line(t: Seq<u8>, k: nat) -> Seq<u8> {
    let raw = t.subrange(line_start(t, k) as int, line_end(t, line_start(t, k)) as int);
    if raw.len() > 0 && raw.last() == 13 {
        raw.drop_last()
    } else {
        raw
    }
}

pub open spec fn is_digit(c: u8) -> bool {
    48 <= c <= 57
}

/// The number that a run of decimal digits spells.
pub open spec fn digits_value(d: Seq<u8>) -> nat
    decreases d.len(),
{
    if d.len() == 0 {
        0
    } else {
        digits_value(d.drop_last()) * 10 + (d.last() - 48) as nat
    }
}

pub open spec fn all_digits(d: Seq<u8>) -> bool {
    forall|i: int| 0 <= i < d.len() ==> is_digit(#[trigger] d[i])
}

/// A line without the `+` that may stand before a number.
pub open spec fn unsigned_text(l: Seq<u8>) -> Seq<u8> {
    if l.len() > 0 && l[0] == 43 {
        l.drop_first()
    } else {
        l
    }
}

/// An unsigned number: an optional `+`, then one or more decimal digits
/// whose value fits in 32 bits.
pub open spec fn number_of(l: Seq<u8>) -> Option<u32> {
    let d = unsigned_text(l);
    if d.len() > 0 && all_digits(d) && digits_value(d) <= u32::MAX {
        Some(digits_value(d) as u32)
    } else {
        None
    }
}

/// A flag: exactly `true` or `false`.
pub open spec fn flag_of(l: Seq<u8>) -> Option<bool> {
    if l == flag_text(true) {
        Some(true)
    } else if l == flag_text(false) {
        Some(false)
    } else {
        None
    }
}

/// Field `k` of the file set from line `l`: speed, count, image-file flag,
/// gameplay flag, in that order.
pub open spec fn apply_line(s: Settings, k: nat, l: Seq<u8>) -> Option<Settings> {
    if k == 0 {
        match number_of(l) {
            Some(v) => Some(Settings { speed: v, ..s }),
            None => None,
        }
    } else if k == 1 {
        match number_of(l) {
            Some(v) => Some(Settings { count: v, ..s }),
            None => None,
        }
    } else if k == 2 {
        match flag_of(l) {
            Some(v) => Some(Settings { use_file: v, ..s }),
            None => None,
        }
    } else {
        match flag_of(l) {
            Some(v) => Some(Settings { show_during_gameplay: v, ..s }),
            None => None,
        }
    }
}

/// Reading the file from line `k` on: each present line sets its field in
/// turn; the first line that does not parse stops the reading, with the
/// fields before it already set. Gives the settings and the failing line.
pub open spec fn load_from(s: Settings, t: Seq<u8>, k: nat) -> (Settings, Option<nat>)
    decreases 4 - k,
{
    if k >= 4 || !has_line(t, k) {
        (s, None)
    } else {
        match apply_line(s, k, line(t, k)) {
            Some(n) => load_from(n, t, k + 1),
            None => (s, Some(k)),
        }
    }
}

/// The end of the line that runs through `start`.
fn find_line_end(t: &[u8], start: usize) -> (end: usize)
    requires
        start <= t@.len(),
    ensures
        end == line_end(t@, start as nat),
        start <= end <= t@.len(),
{
    let mut i = start;
    while i < t.len() && t[i] != 10u8
        invariant
            start <= i <= t@.len(),
            line_end(t@, i as nat) == line_end(t@, start as nat),
        decreases t@.len() - i,
    {
        i = i + 1;
    }
    i
}

/// `digits_value` saturated just above the 32-bit range.
pub open spec fn capped(v: nat) -> nat {
    if v > u32::MAX {
        (u32::MAX + 1) as nat
    } else {
        v
    }
}

/// Reads `t[lo..hi]` as an unsigned decimal number.
fn parse_number(t: &[u8], lo: usize, hi: usize) -> (r: Option<u32>)
    requires
        lo <= hi <= t@.len(),
    ensures
        r == number_of(t@.subrange(lo as int, hi as int)),
{
    let ghost l = t@.subrange(lo as int, hi as int);
    let mut first = lo;
    if lo < hi && t[lo] == 43u8 {
        first = lo + 1;
    }
    let ghost d = t@.subrange(first as int, hi as int);
    assert(d =~= unsigned_text(l));
    if first == hi {
        return None;
    }
    let mut acc: u64 = 0;
    let mut i = first;
    while i < hi
        invariant
            lo <= first <= i <= hi <= t@.len(),
            d == t@.subrange(first as int, hi as int),
            l == t@.subrange(lo as int, hi as int),
            d == unsigned_text(l),
            forall|j: int| first <= j < i ==> is_digit(#[trigger] t@[j]),
            acc == capped(digits_value(t@.subrange(first as int, i as int))),
        decreases hi - i,
    {
        let c = t[i];
        if c < 48u8 || c > 57u8 {
            assert(d[i - first] == t@[i as int]);
            assert(!is_digit(d[i - first]));
            return None;
        }
        let ghost prev = t@.subrange(first as int, i as int);
        let ghost next = t@.subrange(first as int, i + 1);
        assert(next.drop_last() =~= prev);
        assert(digits_value(next) == digits_value(prev) * 10 + (c - 48) as nat);
        let v = acc * 10 + (c - 48u8) as u64;
        assert(capped(v as nat) == capped(digits_value(next))) by (nonlinear_arith)
            requires
                v == acc * 10 + (c - 48),
                0 <= c - 48 <= 9,
                acc == capped(digits_value(prev)),
                digits_value(next) == digits_value(prev) * 10 + (c - 48) as nat,
        ;
        acc = if v > 4294967295u64 { 4294967296u64 } else { v };
        i = i + 1;
    }
    assert(t@.subrange(first as int, i as int) =~= d);
    if acc > 4294967295u64 {
        None
    } else {
        Some(acc as u32)
    }
}

/// Reads `t[lo..hi]` as `true` or `false`.
fn parse_flag(t: &[u8], lo: usize, hi: usize) -> (r: Option<bool>)
    requires
        lo <= hi <= t@.len(),
    ensures
        r == flag_of(t@.subrange(lo as int, hi as int)),
{
    let ghost l = t@.subrange(lo as int, hi as int);
    if hi - lo == 4 && t[lo] == 116u8 && t[lo + 1] == 114u8 && t[lo + 2] == 117u8 && t[lo + 3]
        == 101u8 {
        assert(l =~= flag_text(true));
        Some(true)
    } else if hi - lo == 5 && t[lo] == 102u8 && t[lo + 1] == 97u8 && t[lo + 2] == 108u8 && t[lo
        + 3] == 115u8 && t[lo + 4] == 101u8 {
        assert(l =~= flag_text(false));
        Some(false)
    } else {
        assert(l != flag_text(true)) by {
            if l == flag_text(true) {
                assert(l[0] == t@[lo as int] && l[0] == flag_text(true)[0]);
                assert(l[1] == t@[lo + 1] && l[1] == flag_text(true)[1]);
                assert(l[2] == t@[lo + 2] && l[2] == flag_text(true)[2]);
                assert(l[3] == t@[lo + 3] && l[3] == flag_text(true)[3]);
            }
        }
        assert(l != flag_text(false)) by {
            if l == flag_text(false) {
                assert(l.len() == 5);
                assert(l[0] == t@[lo as int] && l[0] == flag_text(false)[0]);
                assert(l[1] == t@[lo + 1] && l[1] == flag_text(false)[1]);
                assert(l[2] == t@[lo + 2] && l[2] == flag_text(false)[2]);
                assert(l[3] == t@[lo + 3] && l[3] == flag_text(false)[3]);
                assert(l[4] == t@[lo + 4] && l[4] == flag_text(false)[4]);
            }
        }
        None
    }
}

impl Settings {
    /// Nothing shown until the user picks a count and a speed.
    pub fn new() -> (s: Settings)
        ensures
            s == (Settings { use_file: false, speed: 0, count: 0, show_during_gameplay: false }),
    {
        Settings { use_file: false, speed: 0, count: 0, show_during_gameplay: false }
    }

    /// Reads the settings file: speed, count, image-file flag and gameplay
    /// flag, one per line, each line optional from the end. Each line present
    /// sets its field in turn; the first that does not parse stops the
    /// reading with an error that names it, the fields before it already set.
    pub fn load(&mut self, text: &[u8]) -> (r: Result<(), SettingsError>)
        ensures
            *final(self) == load_from(*old(self), text@, 0).0,
            r == (match load_from(*old(self), text@, 0).1 {
                None => Ok(()),
                Some(k) => Err(SettingsError { line: k as usize }),
            }),
    {
        let ghost s0 = *self;
        let mut k: usize = 0;
        let mut start: usize = 0;
        while k < 4
            invariant
                k <= 4,
                s0 == *old(self),
                start == line_start(text@, k as nat),
                start <= text@.len(),
                load_from(*self, text@, k as nat) == load_from(s0, text@, 0),
            decreases 4 - k,
        {
            if start >= text.len() {
                return Ok(());
            }
            let ghost before = *self;
            let end = find_line_end(text, start);
            let mut stop = end;
            if stop > start && text[stop - 1] == 13u8 {
                stop = stop - 1;
            }
            assert(text@.subrange(start as int, stop as int) =~= line(text@, k as nat));
            if k == 0 {
                match parse_number(text, start, stop) {
                    Some(v) => self.speed = v,
                    None => return Err(SettingsError { line: k }),
                }
            } else if k == 1 {
                match parse_number(text, start, stop) {
                    Some(v) => self.count = v,
                    None => return Err(SettingsError { line: k }),
                }
            } else if k == 2 {
                match parse_flag(text, start, stop) {
                    Some(v) => self.use_file = v,
                    None => return Err(SettingsError { line: k }),
                }
            } else {
                match parse_flag(text, start, stop) {
                    Some(v) => self.show_during_gameplay = v,
                    None => return Err(SettingsError { line: k }),
                }
            }
            assert(apply_line(before, k as nat, line(text@, k as nat)) == Some(*self));
            assert(line_start(text@, (k + 1) as nat) == end + 1);
            assert(has_line(text@, k as nat));
            assert(load_from(before, text@, k as nat) == load_from(*self, text@, (k + 1) as nat));
            if end == text.len() {
                assert(load_from(*self, text@, (k + 1) as nat) == (*self, None::<nat>));
                return Ok(());
            }
            start = end + 1;
            k = k + 1;
        }
        Ok(())
    }

    /// The simulation configuration these settings give: the gameplay flag
    /// both keeps the sprites visible in the background and shrinks them there.
    pub fn config(&self) -> (c: Config)
        ensures
            c == (Config {
                sprite_count: self.count,
                speed: self.speed,
                visible_in_background: self.show_during_gameplay,
                shrink_in_background: self.show_during_gameplay,
            }),
    {
        Config {
            sprite_count: self.count,
            speed: self.speed,
            visible_in_background: self.show_during_gameplay,
            shrink_in_background: self.show_during_gameplay,
        }
    }
}

/// Appends the decimal digits of `n`.
fn push_decimal(out: &mut Vec<u8>, n: u32)
    ensures
        final(out)@ == old(out)@ + decimal(n as nat),
    decreases n,
{
    if n >= 10 {
        push_decimal(out, n / 10);
    }
    out.push(48u8 + (n % 10) as u8);
    proof {
        if n >= 10 {
            assert(old(out)@ + decimal(n as nat) =~= old(out)@ + decimal((n / 10) as nat) + seq![(
            48 + n % 10) as u8]);
        } else {
            assert(old(out)@ + decimal(n as nat) =~= old(out)@ + seq![(48 + n) as u8]);
        }
    }
}

/// Appends `true` or `false`.
fn push_flag(out: &mut Vec<u8>, b: bool)
    ensures
        final(out)@ == old(out)@ + flag_text(b),
{
    if b {
        out.push(116u8);
        out.push(114u8);
        out.push(117u8);
        out.push(101u8);
    } else {
        out.push(102u8);
        out.push(97u8);
        out.push(108u8);
        out.push(115u8);
        out.push(101u8);
    }
    assert(out@ =~= old(out)@ + flag_text(b));
}

/// The contents of the settings file, written when the add-on unloads.
pub fn unload(settings: &Settings) -> (r: Vec<u8>)
    ensures
        r@ == encoded(*settings),
{
    let mut out: Vec<u8> = Vec::new();
    push_decimal(&mut out, settings.speed);
    out.push(10u8);
    push_decimal(&mut out, settings.count);
    out.push(10u8);
    push_flag(&mut out, settings.use_file);
    out.push(10u8);
    push_flag(&mut out, settings.show_during_gameplay);
    assert(out@ =~= encoded(*settings));
    out
}

} // verus!

verus! {

/// No byte of `p` is a newline.
pub open spec fn one_line(p: Seq<u8>) -> bool {
    forall|i: int| 0 <= i < p.len() ==> #[trigger] p[i] != 10
}

/// A piece of a line that can end one: no newline inside, not empty, and no
/// carriage return at its end.
pub open spec fn clean_line(p: Seq<u8>) -> bool {
    one_line(p) && p.len() > 0 && p.last() != 13
}

proof fn lemma_decimal(n: nat)
    ensures
        clean_line(decimal(n)),
        all_digits(decimal(n)),
        decimal(n)[0] != 43,
        digits_value(decimal(n)) == n,
    decreases n,
{
    if n >= 10 {
        lemma_decimal(n / 10);
        let p = decimal(n / 10);
        assert(decimal(n).drop_last() =~= p);
        assert(decimal(n)[0] == p[0]);
        assert(((48 + n % 10) as u8) as int == 48 + n % 10);
        assert(decimal(n).last() == (48 + n % 10) as u8);
        assert(digits_value(decimal(n)) == digits_value(p) * 10 + n % 10);
        assert((n / 10) * 10 + n % 10 == n);
    } else {
        assert(((48 + n) as u8) as int == 48 + n);
        assert(decimal(n).drop_last() =~= Seq::<u8>::empty());
        assert(digits_value(Seq::<u8>::empty()) == 0);
    }
}

proof fn lemma_flag(b: bool)
    ensures
        clean_line(flag_text(b)),
        flag_of(flag_text(b)) == Some(b),
{
    assert(flag_text(true).len() == 4);
    assert(flag_text(false).len() == 5);
}

proof fn lemma_number(n: u32)
    ensures
        number_of(decimal(n as nat)) == Some(n),
{
    lemma_decimal(n as nat);
}

/// A line that runs from `i` to a newline at `j`, or to the end of the text.
proof fn lemma_line_end(t: Seq<u8>, i: nat, j: nat)
    requires
        i <= j <= t.len(),
        j < t.len() ==> t[j as int] == 10,
        forall|p: int| i <= p < j ==> #[trigger] t[p] != 10,
    ensures
        line_end(t, i) == j,
    decreases j - i,
{
    if i < j {
        lemma_line_end(t, i + 1, j);
    }
}

/// Line `k` starts at `start` and holds the clean piece `p`, followed by a
/// newline or the end of the text.
proof fn lemma_piece(t: Seq<u8>, k: nat, p: Seq<u8>, start: nat)
    requires
        line_start(t, k) == start,
        start + p.len() <= t.len(),
        t.subrange(start as int, (start + p.len()) as int) == p,
        clean_line(p),
        start + p.len() < t.len() ==> t[(start + p.len()) as int] == 10,
    ensures
        has_line(t, k),
        line_end(t, start) == start + p.len(),
        line(t, k) == p,
        line_start(t, k + 1) == start + p.len() + 1,
{
    assert forall|q: int| start <= q < start + p.len() implies #[trigger] t[q] != 10 by {
        assert(t[q] == p[q - start]);
    }
    lemma_line_end(t, start, start + p.len());
}

/// Reading back what `unload` wrote restores the settings, whatever they were
/// before, with no error.
pub proof fn lemma_load_unload(prev: Settings, s: Settings)
    ensures
        load_from(prev, encoded(s), 0) == (s, None::<nat>),
{
    let a = decimal(s.speed as nat);
    let b = decimal(s.count as nat);
    let c = flag_text(s.use_file);
    let d = flag_text(s.show_during_gameplay);
    let nl = seq![10u8];
    let t = encoded(s);
    lemma_decimal(s.speed as nat);
    lemma_decimal(s.count as nat);
    lemma_number(s.speed);
    lemma_number(s.count);
    lemma_flag(s.use_file);
    lemma_flag(s.show_during_gameplay);
    let s1: int = a.len() as int + 1;
    let s2: int = s1 + b.len() + 1;
    let s3: int = s2 + c.len() + 1;
    assert(t.len() == s3 + d.len());
    assert(t =~= a + nl + b + nl + c + nl + d);
    assert(t.subrange(0, a.len() as int) =~= a);
    assert(t.subrange(s1 as int, s1 + b.len()) =~= b);
    assert(t.subrange(s2 as int, s2 + c.len()) =~= c);
    assert(t.subrange(s3 as int, s3 + d.len()) =~= d);
    assert(t[a.len() as int] == 10);
    assert(t[s1 + b.len()] == 10);
    assert(t[s2 + c.len()] == 10);
    lemma_piece(t, 0, a, 0);
    lemma_piece(t, 1, b, s1 as nat);
    lemma_piece(t, 2, c, s2 as nat);
    lemma_piece(t, 3, d, s3 as nat);
    let p1 = Settings { speed: s.speed, ..prev };
    let p2 = Settings { count: s.count, ..p1 };
    let p3 = Settings { use_file: s.use_file, ..p2 };
    assert(load_from(p3, t, 3) == load_from(s, t, 4));
    assert(load_from(p2, t, 2) == load_from(p3, t, 3));
    assert(load_from(p1, t, 1) == load_from(p2, t, 2));
    assert(load_from(prev, t, 0) == load_from(p1, t, 1));
}

} // verus!
