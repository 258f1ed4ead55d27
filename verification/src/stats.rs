//! Crawl statistics: page, item and error counters, a per-status-code
//! tally kept in ascending code order, and the lines of the end-of-run
//! summary.

use vstd::prelude::*;
use vstd::string::{StrSliceExecFns, StringExecFns};
use crate::text::{decimal, decimal_string, push_char, texts};

verus! {

/// `entries` lists status codes in strictly ascending order.
pub open spec fn ascending(entries: Seq<(u16, usize)>) -> bool {
    forall|i: int, j: int| 0 <= i < j < entries.len() ==> (#[trigger] entries[i]).0 < (#[trigger] entries[j]).0
}

/// How often `code` was recorded according to `entries`.
pub open spec fn count_in(entries: Seq<(u16, usize)>, code: u16) -> nat {
    if exists|i: int| 0 <= i < entries.len() && (#[trigger] entries[i]).0 == code {
        entries[choose|i: int| 0 <= i < entries.len() && (#[trigger] entries[i]).0 == code].1 as nat
    } else {
        0
    }
}

/// `n` spaces.
pub open spec fn spaces(n: nat) -> Seq<char> {
    Seq::new(n, |i: int| ' ')
}

/// `s` right-aligned in a field of `width` characters (never cut).
pub open spec fn pad_left(s: Seq<char>, width: nat) -> Seq<char> {
    spaces(if width > s.len() { (width - s.len()) as nat } else { 0 }) + s
}

/// The widest decimal count in a status tally.
pub open spec fn count_width(entries: Seq<(u16, usize)>) -> nat
    decreases entries.len(),
{
    if entries.len() == 0 {
        0
    } else {
        let w = count_width(entries.drop_last());
        let l = decimal(entries.last().1 as nat).len();
        if l > w { l } else { w }
    }
}

/// The summary line for one status code, its count right-aligned in a
/// field of `width` characters.
pub open spec fn status_line(entry: (u16, usize), width: nat) -> Seq<char> {
    "    "@ + decimal(entry.0 as nat) + ":  "@ + pad_left(decimal(entry.1 as nat), width)
}

/// The summary lines for the entries, counts aligned to `width`.
pub open spec fn status_lines_width(entries: Seq<(u16, usize)>, width: nat) -> Seq<Seq<char>> {
    entries.map_values(|e: (u16, usize)| status_line(e, width))
}

/// The summary lines for a status tally, in order, the counts right-aligned
/// to the widest of them.
pub open spec fn status_lines(entries: Seq<(u16, usize)>) -> Seq<Seq<char>> {
    status_lines_width(entries, count_width(entries))
}

/// Every count of the tally fits the common width.
pub proof fn lemma_count_width_bound(entries: Seq<(u16, usize)>, i: int)
    requires
        0 <= i < entries.len(),
    ensures
        decimal(entries[i].1 as nat).len() <= count_width(entries),
    decreases entries.len(),
{
    if i < entries.len() - 1 {
        lemma_count_width_bound(entries.drop_last(), i);
    }
}

/// The status lines of the summary right-align the counts: lines for codes
/// of the same number of digits all have the same length, the count's last
/// digit in the same column.
pub proof fn law_status_counts_aligned(entries: Seq<(u16, usize)>, i: int, j: int)
    requires
        0 <= i < entries.len(),
        0 <= j < entries.len(),
        decimal(entries[i].0 as nat).len() == decimal(entries[j].0 as nat).len(),
    ensures
        status_lines(entries)[i].len() == status_lines(entries)[j].len(),
        status_lines(entries)[i].len() == 7 + decimal(entries[i].0 as nat).len() + count_width(entries),
{
    lemma_count_width_bound(entries, i);
    lemma_count_width_bound(entries, j);
    reveal_strlit("    ");
    reveal_strlit(":  ");
}

/// The end-of-run summary: duration (already formatted, in seconds), page
/// and item counts, the status tally when one was recorded, and the error
/// counts only when there was an error.
pub open spec fn summary(
    duration: Seq<char>,
    pages: nat,
    items: nat,
    fetch_errors: nat,
    write_errors: nat,
    entries: Seq<(u16, usize)>,
) -> Seq<Seq<char>> {
    let head = seq![
        "scrape complete"@,
        "  duration:       "@ + duration + "s"@,
        "  pages fetched:  "@ + decimal(pages),
        "  items written:  "@ + decimal(items),
    ];
    let codes = if entries.len() > 0 {
        seq!["  http status codes:"@] + status_lines(entries)
    } else {
        Seq::empty()
    };
    let errors = if fetch_errors > 0 || write_errors > 0 {
        seq![
            "  errors:"@,
            "    fetch errors:  "@ + decimal(fetch_errors),
            "    write errors:  "@ + decimal(write_errors),
        ]
    } else {
        Seq::empty()
    };
    head + codes + errors
}

/// The summary always opens with the four headline lines; the status
/// section (a heading and one line per code) appears only when a status was
/// recorded, and the three error lines only when there was an error.
pub proof fn law_summary_sections(
    duration: Seq<char>,
    pages: nat,
    items: nat,
    fetch_errors: nat,
    write_errors: nat,
    entries: Seq<(u16, usize)>,
)
    ensures
        ({
            let s = summary(duration, pages, items, fetch_errors, write_errors, entries);
            let codes: int = if entries.len() > 0 { entries.len() + 1 as int } else { 0 };
            let errors: int = if fetch_errors > 0 || write_errors > 0 { 3 } else { 0 };
            &&& s.len() == 4 + codes + errors
            &&& s[0] == "scrape complete"@
            &&& entries.len() > 0 ==> s[4] == "  http status codes:"@
            &&& forall|i: int| 0 <= i < entries.len() ==> s[5 + i] == status_line(#[trigger] entries[i], count_width(entries))
            &&& errors > 0 ==> s[4 + codes] == "  errors:"@
        }),
{
}

/// How many times `c` occurs in `codes`.
pub open spec fn occurrences(codes: Seq<u16>, c: u16) -> nat
    decreases codes.len(),
{
    if codes.len() == 0 {
        0
    } else {
        occurrences(codes.drop_last(), c) + if codes.last() == c { 1nat } else { 0nat }
    }
}

/// `after` is `before` with one more response of status `code` recorded,
/// as `Stats::record_status` leaves it.
pub open spec fn records_one(before: Stats, after: Stats, code: u16) -> bool {
    &&& after.count_of(code) == before.count_of(code) + 1
    &&& forall|c: u16| c != code ==> after.count_of(c) == before.count_of(c)
}

/// Recording a run of statuses one by one leaves each code's count raised by
/// the number of times it occurs in the run: the tally does not depend on
/// the order of the calls.
pub proof fn law_tally_counts_occurrences(states: Seq<Stats>, codes: Seq<u16>)
    requires
        states.len() == codes.len() + 1,
        forall|k: int| 0 <= k < codes.len() ==> records_one(#[trigger] states[k], states[k + 1], codes[k]),
    ensures
        forall|c: u16| #[trigger] states.last().count_of(c) == states[0].count_of(c) + occurrences(codes, c),
    decreases codes.len(),
{
    if codes.len() > 0 {
        let n = codes.len() as int;
        let prev = states.drop_last();
        assert forall|k: int| 0 <= k < codes.drop_last().len() implies records_one(
            #[trigger] prev[k],
            prev[k + 1],
            codes.drop_last()[k],
        ) by {
            assert(records_one(states[k], states[k + 1], codes[k]));
        }
        law_tally_counts_occurrences(prev, codes.drop_last());
        assert(records_one(states[n - 1], states[n], codes[n - 1]));
        assert forall|c: u16| #[trigger] states.last().count_of(c) == states[0].count_of(c) + occurrences(codes, c) by {
            assert(prev.last() == states[n - 1]);
            assert(prev[0] == states[0]);
        }
    }
}

/// The decimal text of `n` right-aligned in a field of `width` characters.
fn padded_decimal(n: u64, width: usize) -> (r: String)
    ensures
        r@ == pad_left(decimal(n as nat), width as nat),
{
    let d = decimal_string(n);
    let len = d.as_str().unicode_len();
    let mut r = String::new();
    let pad: usize = if width > len { width - len } else { 0 };
    let mut k: usize = 0;
    while k < pad
        invariant
            k <= pad,
            r@ == spaces(k as nat),
        decreases pad - k,
    {
        push_char(&mut r, ' ');
        assert(spaces((k + 1) as nat) =~= spaces(k as nat).push(' '));
        k = k + 1;
    }
    r.append(d.as_str());
    r
}

/// The summary's headline lines show the counters themselves, whatever the
/// error counts and the status tally, and the error lines show the error
/// counts.
pub proof fn law_summary_headlines(
    duration: Seq<char>,
    pages: nat,
    items: nat,
    fetch_errors: nat,
    write_errors: nat,
    entries: Seq<(u16, usize)>,
)
    ensures
        ({
            let s = summary(duration, pages, items, fetch_errors, write_errors, entries);
            let codes: int = if entries.len() > 0 { entries.len() + 1 as int } else { 0 };
            &&& s[0] == "scrape complete"@
            &&& s[1] == "  duration:       "@ + duration + "s"@
            &&& s[2] == "  pages fetched:  "@ + decimal(pages)
            &&& s[3] == "  items written:  "@ + decimal(items)
            &&& (fetch_errors > 0 || write_errors > 0) ==> {
                &&& s.len() == 4 + codes + 3
                &&& s[5 + codes] == "    fetch errors:  "@ + decimal(fetch_errors)
                &&& s[6 + codes] == "    write errors:  "@ + decimal(write_errors)
            }
        }),
{
}

/// Counters of one crawl.
pub struct Stats {
    pub pages_fetched: usize,
    pub items_written: usize,
    pub fetch_errors: usize,
    pub write_errors: usize,
    pub status_counts: Vec<(u16, usize)>,
}

impl Stats {
    /// The status tally: codes with their counts, codes ascending.
    pub open spec fn entries(&self) -> Seq<(u16, usize)> {
        self.status_counts@
    }

    /// How often `code` was recorded.
    pub open spec fn count_of(&self, code: u16) -> nat {
        count_in(self.entries(), code)
    }

    /// Well-formedness: the tally is in strictly ascending code order and
    /// every listed code was recorded at least once.
    pub open spec fn wf(&self) -> bool {
        &&& ascending(self.entries())
        &&& forall|i: int| 0 <= i < self.entries().len() ==> (#[trigger] self.entries()[i]).1 > 0
    }

    /// Fresh statistics: all counters zero, no status recorded.
    pub fn new() -> (s: Self)
        ensures
            s.wf(),
            s.pages_fetched == 0,
            s.items_written == 0,
            s.fetch_errors == 0,
            s.write_errors == 0,
            s.entries() == Seq::<(u16, usize)>::empty(),
    {
        Stats {
            pages_fetched: 0,
            items_written: 0,
            fetch_errors: 0,
            write_errors: 0,
            status_counts: Vec::new(),
        }
    }

    /// How often `code` was recorded.
    pub fn status_count(&self, code: u16) -> (n: usize)
        requires
            self.wf(),
        ensures
            n == self.count_of(code),
    {
        let mut i: usize = 0;
        while i < self.status_counts.len()
            invariant
                i <= self.entries().len(),
                self.wf(),
                forall|k: int| 0 <= k < i ==> (#[trigger] self.entries()[k]).0 != code,
            decreases self.entries().len() - i,
        {
            if self.status_counts[i].0 == code {
                proof {
                    lemma_count_at(self.entries(), i as int, code);
                }
                return self.status_counts[i].1;
            }
            i = i + 1;
        }
        0
    }

    /// Counts one response with status `code`.
    pub fn record_status(&mut self, code: u16)
        requires
            old(self).wf(),
            old(self).count_of(code) < usize::MAX,
        ensures
            final(self).wf(),
            final(self).count_of(code) == old(self).count_of(code) + 1,
            forall|c: u16| c != code ==> final(self).count_of(c) == old(self).count_of(c),
            final(self).pages_fetched == old(self).pages_fetched,
            final(self).items_written == old(self).items_written,
            final(self).fetch_errors == old(self).fetch_errors,
            final(self).write_errors == old(self).write_errors,
    {
        let ghost e0 = self.entries();
        let n = self.status_counts.len();
        let mut i: usize = 0;
        while i < n && self.status_counts[i].0 < code
            invariant
                i <= n == e0.len(),
                self.entries() == e0,
                forall|k: int| 0 <= k < i ==> (#[trigger] e0[k]).0 < code,
            decreases n - i,
        {
            i = i + 1;
        }
        if i < n && self.status_counts[i].0 == code {
            let c = self.status_counts[i].1;
            proof {
                lemma_count_at(e0, i as int, code);
            }
            self.status_counts.set(i, (code, c + 1));
            proof {
                let e1 = self.entries();
                assert(e1 == e0.update(i as int, (code, (c + 1) as usize)));
                assert(ascending(e1));
                lemma_count_at(e1, i as int, code);
                assert forall|cc: u16| cc != code implies count_in(e1, cc) == count_in(e0, cc) by {
                    lemma_count_same(e0, e1, cc);
                }
            }
        } else {
            self.status_counts.insert(i, (code, 1));
            proof {
                let e1 = self.entries();
                assert(e1 == e0.insert(i as int, (code, 1usize)));
                assert forall|a: int, b: int| 0 <= a < b < e1.len() implies (#[trigger] e1[a]).0 < (#[trigger] e1[b]).0 by {
                    if a < i && b > i {
                        assert(e1[b] == e0[b - 1]);
                    }
                    if a == i && b > i {
                        assert(e1[b] == e0[b - 1]);
                        if b - 1 > i {
                            assert(e0[i as int].0 < e0[b - 1].0);
                        }
                    }
                    if a > i {
                        assert(e1[a] == e0[a - 1] && e1[b] == e0[b - 1]);
                    }
                }
                assert(count_in(e0, code) == 0) by {
                    if exists|k: int| 0 <= k < e0.len() && (#[trigger] e0[k]).0 == code {
                        let k = choose|k: int| 0 <= k < e0.len() && (#[trigger] e0[k]).0 == code;
                        if k >= i {
                            assert(e0[i as int].0 <= e0[k].0);
                        }
                    }
                }
                lemma_count_at(e1, i as int, code);
                assert forall|cc: u16| cc != code implies count_in(e1, cc) == count_in(e0, cc) by {
                    lemma_count_insert(e0, e1, i as int, cc);
                }
            }
        }
    }

    /// The widest decimal count of the tally.
    fn count_width_exec(&self) -> (w: usize)
        ensures
            w == count_width(self.entries()),
    {
        let mut w: usize = 0;
        let n = self.status_counts.len();
        for i in 0..n
            invariant
                n == self.entries().len(),
                w == count_width(self.entries().take(i as int)),
        {
            let l = self.status_counts[i].1;
            let d = decimal_string(l as u64);
            let len = d.as_str().unicode_len();
            assert(self.entries().take(i + 1).drop_last() =~= self.entries().take(i as int));
            if len > w {
                w = len;
            }
        }
        assert(self.entries().take(n as int) =~= self.entries());
        w
    }

    /// The lines of the end-of-run summary, `duration` being the elapsed
    /// time already formatted in seconds.
    pub fn print_summary(&self, duration: &str) -> (lines: Vec<String>)
        requires
            self.wf(),
        ensures
            texts(lines@) == summary(
                duration@,
                self.pages_fetched as nat,
                self.items_written as nat,
                self.fetch_errors as nat,
                self.write_errors as nat,
                self.entries(),
            ),
            lines@.len() >= 4,
            lines@[0]@ == "scrape complete"@,
            lines@[1]@ == "  duration:       "@ + duration@ + "s"@,
            lines@[2]@ == "  pages fetched:  "@ + decimal(self.pages_fetched as nat),
            lines@[3]@ == "  items written:  "@ + decimal(self.items_written as nat),
    {
        let mut lines: Vec<String> = Vec::new();
        lines.push(String::from_str("scrape complete"));
        lines.push(String::from_str("  duration:       ").concat(duration).concat("s"));
        lines.push(String::from_str("  pages fetched:  ").concat(decimal_string(self.pages_fetched as u64).as_str()));
        lines.push(String::from_str("  items written:  ").concat(decimal_string(self.items_written as u64).as_str()));
        let ghost head = texts(lines@);
        assert(head =~= seq![
            "scrape complete"@,
            "  duration:       "@ + duration@ + "s"@,
            "  pages fetched:  "@ + decimal(self.pages_fetched as nat),
            "  items written:  "@ + decimal(self.items_written as nat),
        ]);
        let n = self.status_counts.len();
        if n > 0 {
            let width = self.count_width_exec();
            lines.push(String::from_str("  http status codes:"));
            for i in 0..n
                invariant
                    n == self.entries().len(),
                    width == count_width(self.entries()),
                    texts(lines@) == head + seq!["  http status codes:"@] + status_lines_width(
                        self.entries().take(i as int),
                        width as nat,
                    ),
            {
                let (code, count) = self.status_counts[i];
                let line = String::from_str("    ").concat(decimal_string(code as u64).as_str()).concat(":  ").concat(
                    padded_decimal(count as u64, width).as_str(),
                );
                let ghost before = lines@;
                lines.push(line);
                proof {
                    assert(texts(lines@) =~= texts(before).push(line@));
                    assert(status_lines_width(self.entries().take(i + 1), width as nat) =~= status_lines_width(
                        self.entries().take(i as int),
                        width as nat,
                    ).push(status_line(self.entries()[i as int], width as nat)));
                }
            }
            assert(self.entries().take(n as int) =~= self.entries());
        }
        let ghost mid = texts(lines@);
        assert(mid == head + (if n > 0 {
            seq!["  http status codes:"@] + status_lines(self.entries())
        } else {
            Seq::empty()
        })) by {
            if n == 0 {
                assert(head + Seq::<Seq<char>>::empty() =~= head);
            } else {
                assert(head + seq!["  http status codes:"@] + status_lines(self.entries()) =~= head + (seq![
                    "  http status codes:"@] + status_lines(self.entries())));
            }
        }
        if self.fetch_errors > 0 || self.write_errors > 0 {
            lines.push(String::from_str("  errors:"));
            lines.push(String::from_str("    fetch errors:  ").concat(decimal_string(self.fetch_errors as u64).as_str()));
            lines.push(String::from_str("    write errors:  ").concat(decimal_string(self.write_errors as u64).as_str()));
            assert(texts(lines@) =~= mid + seq![
                "  errors:"@,
                "    fetch errors:  "@ + decimal(self.fetch_errors as nat),
                "    write errors:  "@ + decimal(self.write_errors as nat),
            ]);
        } else {
            assert(texts(lines@) =~= mid + Seq::<Seq<char>>::empty());
        }
        proof {
            let s = summary(
                duration@,
                self.pages_fetched as nat,
                self.items_written as nat,
                self.fetch_errors as nat,
                self.write_errors as nat,
                self.entries(),
            );
            assert(texts(lines@) =~= s);
        }
        proof {
            law_summary_headlines(
                duration@,
                self.pages_fetched as nat,
                self.items_written as nat,
                self.fetch_errors as nat,
                self.write_errors as nat,
                self.entries(),
            );
            assert(texts(lines@)[0] == lines@[0]@);
            assert(texts(lines@)[1] == lines@[1]@);
            assert(texts(lines@)[2] == lines@[2]@);
            assert(texts(lines@)[3] == lines@[3]@);
        }
        lines
    }
}

/// In an ascending tally, the count of the code at index `i` is the one
/// stored there.
proof fn lemma_count_at(e: Seq<(u16, usize)>, i: int, code: u16)
    requires
        ascending(e),
        0 <= i < e.len(),
        e[i].0 == code,
    ensures
        count_in(e, code) == e[i].1 as nat,
{
    let k = choose|k: int| 0 <= k < e.len() && (#[trigger] e[k]).0 == code;
    if k != i {
        if k < i {
            assert(e[k].0 < e[i].0);
        } else {
            assert(e[i].0 < e[k].0);
        }
    }
}

/// Two tallies over the same codes at the same places agree on `cc` when
/// they differ only at an entry of another code.
proof fn lemma_count_same(e0: Seq<(u16, usize)>, e1: Seq<(u16, usize)>, cc: u16)
    requires
        ascending(e0),
        ascending(e1),
        e0.len() == e1.len(),
        forall|k: int| 0 <= k < e0.len() ==> (#[trigger] e0[k]).0 == e1[k].0,
        forall|k: int| 0 <= k < e0.len() && e0[k].0 == cc ==> #[trigger] e1[k] == e0[k],
    ensures
        count_in(e1, cc) == count_in(e0, cc),
{
    if exists|k: int| 0 <= k < e0.len() && (#[trigger] e0[k]).0 == cc {
        let k = choose|k: int| 0 <= k < e0.len() && (#[trigger] e0[k]).0 == cc;
        lemma_count_at(e0, k, cc);
        assert(e1[k].0 == cc);
        lemma_count_at(e1, k, cc);
    } else {
        assert forall|k: int| 0 <= k < e1.len() implies (#[trigger] e1[k]).0 != cc by {
            assert(e0[k].0 == e1[k].0);
        }
    }
}

/// Inserting an entry for another code keeps the count of `cc`.
proof fn lemma_count_insert(e0: Seq<(u16, usize)>, e1: Seq<(u16, usize)>, i: int, cc: u16)
    requires
        ascending(e0),
        ascending(e1),
        0 <= i <= e0.len(),
        e1 == e0.insert(i, (e1[i].0, e1[i].1)),
        e1[i].0 != cc,
    ensures
        count_in(e1, cc) == count_in(e0, cc),
{
    if exists|k: int| 0 <= k < e0.len() && (#[trigger] e0[k]).0 == cc {
        let k = choose|k: int| 0 <= k < e0.len() && (#[trigger] e0[k]).0 == cc;
        lemma_count_at(e0, k, cc);
        let k1 = if k < i { k } else { k + 1 };
        assert(e1[k1] == e0[k]);
        lemma_count_at(e1, k1, cc);
    } else {
        assert forall|k: int| 0 <= k < e1.len() implies (#[trigger] e1[k]).0 != cc by {
            if k < i {
                assert(e1[k] == e0[k]);
            } else if k > i {
                assert(e1[k] == e0[k - 1]);
            }
        }
    }
}

} // verus!
