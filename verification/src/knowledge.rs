use vstd::prelude::*;

verus! {

// ── Byte-level spec helpers ─────────────────────────────────────────────────

/// ASCII whitespace, the characters `trim` removes.
pub open spec fn is_space(b: u8) -> bool {
    b == 32 || (9 <= b && b <= 13)
}

/// Does `s` begin with `p`?
pub open spec fn is_prefix(p: Seq<u8>, s: Seq<u8>) -> bool {
    p.len() <= s.len() && (forall|i: int| 0 <= i < p.len() ==> s[i] == #[trigger] p[i])
}

/// Index of the first occurrence of `t` in `s` at or after `from`, or
/// `s.len()` when there is none.
pub open spec fn find_byte(s: Seq<u8>, t: u8, from: int) -> int
    recommends
        0 <= from <= s.len(),
    decreases s.len() - from,
{
    if from >= s.len() {
        s.len() as int
    } else if s[from] == t {
        from
    } else {
        find_byte(s, t, from + 1)
    }
}

proof fn lemma_find_byte_range(s: Seq<u8>, t: u8, from: int)
    requires
        0 <= from <= s.len(),
    ensures
        from <= find_byte(s, t, from) <= s.len(),
    decreases s.len() - from,
{
    if from < s.len() && s[from] != t {
        lemma_find_byte_range(s, t, from + 1);
    }
}

/// A line terminator's carriage return is dropped together with it.
pub open spec fn strip_cr(line: Seq<u8>) -> Seq<u8> {
    if line.len() > 0 && line.last() == 13 {
        line.drop_last()
    } else {
        line
    }
}

/// The lines of `s` from offset `from` on: split at each line feed, with a
/// carriage return before a line feed dropped, and no empty line after a
/// final terminator.
pub open spec fn spec_lines_from(s: Seq<u8>, from: nat) -> Seq<Seq<u8>>
    decreases s.len() - from,
    via spec_lines_from_decreases
{
    if from >= s.len() {
        Seq::empty()
    } else {
        let i = find_byte(s, 10, from as int);
        if i >= s.len() {
            seq![s.subrange(from as int, s.len() as int)]
        } else {
            seq![strip_cr(s.subrange(from as int, i))] + spec_lines_from(s, (i + 1) as nat)
        }
    }
}

#[via_fn]
proof fn spec_lines_from_decreases(s: Seq<u8>, from: nat) {
    if from < s.len() {
        lemma_find_byte_range(s, 10, from as int);
    }
}

/// The lines of `s`.
pub open spec fn spec_lines(s: Seq<u8>) -> Seq<Seq<u8>> {
    spec_lines_from(s, 0)
}

/// `s` with leading ASCII whitespace dropped.
pub open spec fn trim_front(s: Seq<u8>) -> Seq<u8>
    decreases s.len(),
{
    if s.len() > 0 && is_space(s[0]) {
        trim_front(s.skip(1))
    } else {
        s
    }
}

/// `s` with trailing ASCII whitespace dropped.
pub open spec fn trim_back(s: Seq<u8>) -> Seq<u8>
    decreases s.len(),
{
    if s.len() > 0 && is_space(s.last()) {
        trim_back(s.drop_last())
    } else {
        s
    }
}

/// `s` with whitespace dropped at both ends.
pub open spec fn trim_bytes(s: Seq<u8>) -> Seq<u8> {
    trim_back(trim_front(s))
}

/// `s` with every leading repetition of `p` dropped.
pub open spec fn strip_repeated(s: Seq<u8>, p: Seq<u8>) -> Seq<u8>
    decreases s.len(),
{
    if p.len() > 0 && is_prefix(p, s) {
        strip_repeated(s.skip(p.len() as int), p)
    } else {
        s
    }
}

/// ASCII uppercase of one byte.
pub open spec fn to_upper(b: u8) -> u8 {
    if 97 <= b && b <= 122 {
        (b - 32) as u8
    } else {
        b
    }
}

/// ASCII uppercase of a byte string.
pub open spec fn upper_bytes(s: Seq<u8>) -> Seq<u8> {
    Seq::new(s.len(), |i: int| to_upper(s[i]))
}

// ── The markers of the log dialect ──────────────────────────────────────────

/// `"## "`, opening a date header.
pub open spec fn date_marker() -> Seq<u8> {
    seq![35u8, 35u8, 32u8]
}

/// `"### "`, opening an entry header.
pub open spec fn entry_marker() -> Seq<u8> {
    seq![35u8, 35u8, 35u8, 32u8]
}

/// `"- "`, a bullet an annotation line may carry.
pub open spec fn bullet_marker() -> Seq<u8> {
    seq![45u8, 32u8]
}

/// `"**Detail**:"`, opening a detail annotation.
pub open spec fn detail_marker() -> Seq<u8> {
    seq![42u8, 42u8, 68u8, 101u8, 116u8, 97u8, 105u8, 108u8, 42u8, 42u8, 58u8]
}

/// `"**Source**:"`, opening a source annotation.
pub open spec fn source_marker() -> Seq<u8> {
    seq![42u8, 42u8, 83u8, 111u8, 117u8, 114u8, 99u8, 101u8, 42u8, 42u8, 58u8]
}

// ── The scanner's model ─────────────────────────────────────────────────────

/// Model of one flat record scanned out of a knowledge log.
#[verifier::ext_equal]
pub struct LogEntryModel {
    pub engagement: Seq<u8>,
    pub workstream: Seq<u8>,
    pub date: Seq<u8>,
    pub entry_type: Seq<u8>,
    pub summary: Seq<u8>,
    pub detail: Seq<u8>,
    pub source: Seq<u8>,
}

/// Model of the scanner's state between lines: the fields gathered for the
/// entry being read, whether a line opened an entry that is still pending,
/// and the records emitted so far.
#[verifier::ext_equal]
pub struct ScanState {
    pub date: Seq<u8>,
    pub entry_type: Seq<u8>,
    pub summary: Seq<u8>,
    pub detail: Seq<u8>,
    pub source: Seq<u8>,
    pub in_entry: bool,
    pub records: Seq<LogEntryModel>,
}

/// The scanner's state before any line.
pub open spec fn init_state() -> ScanState {
    ScanState {
        date: Seq::empty(),
        entry_type: Seq::empty(),
        summary: Seq::empty(),
        detail: Seq::empty(),
        source: Seq::empty(),
        in_entry: false,
        records: Seq::empty(),
    }
}

/// The record the pending entry yields.
pub open spec fn record_of(eng: Seq<u8>, ws: Seq<u8>, st: ScanState) -> LogEntryModel {
    LogEntryModel {
        engagement: eng,
        workstream: ws,
        date: st.date,
        entry_type: st.entry_type,
        summary: st.summary,
        detail: st.detail,
        source: st.source,
    }
}

/// Emits the pending entry as a record.
pub open spec fn spec_flush(eng: Seq<u8>, ws: Seq<u8>, st: ScanState) -> ScanState {
    ScanState { records: st.records.push(record_of(eng, ws, st)), ..st }
}

/// One step of the scanner on one line. A date header flushes any pending
/// entry and sets the date; an entry header flushes and opens a new entry,
/// reading `[TYPE] summary` when the brackets are well formed and else
/// taking the whole header as an untyped summary; inside an entry a
/// `**Detail**:` or `**Source**:` annotation (with an optional leading
/// bullet) sets that field; every other line is ignored.
pub open spec fn spec_step(eng: Seq<u8>, ws: Seq<u8>, st: ScanState, line: Seq<u8>) -> ScanState {
    if is_prefix(date_marker(), line) && !is_prefix(entry_marker(), line) {
        let st1 = if st.in_entry {
            spec_flush(eng, ws, st)
        } else {
            st
        };
        ScanState {
            date: trim_bytes(strip_repeated(line, date_marker())),
            in_entry: false,
            ..st1
        }
    } else if is_prefix(entry_marker(), line) {
        let st1 = if st.in_entry {
            spec_flush(eng, ws, st)
        } else {
            st
        };
        let header = trim_bytes(strip_repeated(line, entry_marker()));
        let opened = if header.len() > 0 && header[0] == 91 {
            let rest = header.skip(1);
            let ci = find_byte(rest, 93, 0);
            if ci < rest.len() {
                ScanState {
                    entry_type: upper_bytes(rest.take(ci)),
                    summary: trim_bytes(rest.skip(ci + 1)),
                    ..st1
                }
            } else {
                ScanState { entry_type: Seq::empty(), summary: header, ..st1 }
            }
        } else {
            ScanState { entry_type: Seq::empty(), summary: header, ..st1 }
        };
        ScanState { detail: Seq::empty(), source: Seq::empty(), in_entry: true, ..opened }
    } else if st.in_entry {
        let t = strip_repeated(line, bullet_marker());
        if is_prefix(detail_marker(), t) {
            ScanState { detail: trim_bytes(t.skip(detail_marker().len() as int)), ..st }
        } else if is_prefix(source_marker(), t) {
            ScanState { source: trim_bytes(t.skip(source_marker().len() as int)), ..st }
        } else {
            st
        }
    } else {
        st
    }
}

/// The scanner folded over `lines` starting from `st`.
pub open spec fn spec_scan(eng: Seq<u8>, ws: Seq<u8>, st: ScanState, lines: Seq<Seq<u8>>) -> ScanState
    decreases lines.len(),
{
    if lines.len() == 0 {
        st
    } else {
        spec_scan(eng, ws, spec_step(eng, ws, st, lines[0]), lines.skip(1))
    }
}

/// The records a whole log yields: the scanner runs over its lines and a
/// still-pending entry at end of input is emitted too.
pub open spec fn spec_parse(content: Seq<u8>, eng: Seq<u8>, ws: Seq<u8>) -> Seq<LogEntryModel> {
    let fin = spec_scan(eng, ws, init_state(), spec_lines(content));
    if fin.in_entry {
        spec_flush(eng, ws, fin).records
    } else {
        fin.records
    }
}

// ── Executable byte helpers ─────────────────────────────────────────────────

/// Is `b` ASCII whitespace?
fn is_space_byte(b: u8) -> (r: bool)
    ensures
        r == is_space(b),
{
    b == 32 || (9 <= b && b <= 13)
}

/// Copies `s[from..to]` out into a fresh byte string.
fn copy_range(s: &Vec<u8>, from: usize, to: usize) -> (r: Vec<u8>)
    requires
        from <= to <= s@.len(),
    ensures
        r@ == s@.subrange(from as int, to as int),
{
    let mut r: Vec<u8> = Vec::new();
    let mut i: usize = from;
    while i < to
        invariant
            from <= i <= to <= s@.len(),
            r@ == s@.subrange(from as int, i as int),
        decreases to - i,
    {
        r.push(s[i]);
        proof {
            assert(s@.subrange(from as int, i + 1 as int) =~= s@.subrange(from as int, i as int).push(
                s@[i as int],
            ));
        }
        i = i + 1;
    }
    r
}

/// Copies a whole byte string.
fn copy_bytes(s: &Vec<u8>) -> (r: Vec<u8>)
    ensures
        r@ == s@,
{
    let r = copy_range(s, 0, s.len());
    proof {
        assert(s@.subrange(0, s@.len() as int) =~= s@);
    }
    r
}

/// Does `s`, from offset `from` on, begin with `p`?
fn has_prefix_at(s: &Vec<u8>, from: usize, p: &Vec<u8>) -> (b: bool)
    requires
        from <= s@.len(),
    ensures
        b == is_prefix(p@, s@.skip(from as int)),
{
    let n: usize = s.len();
    if n - from < p.len() {
        return false;
    }
    let mut j: usize = 0;
    while j < p.len()
        invariant
            0 <= j <= p@.len(),
            n == s@.len(),
            from + p@.len() <= n,
            forall|k: int| 0 <= k < j ==> s@.skip(from as int)[k] == #[trigger] p@[k],
        decreases p@.len() - j,
    {
        if s[from + j] != p[j] {
            proof {
                assert(s@.skip(from as int)[j as int] != p@[j as int]);
            }
            return false;
        }
        j = j + 1;
    }
    true
}

/// Index of the first occurrence of `t` in `s` at or after `from`, or
/// `s.len()` when there is none.
fn find_byte_exec(s: &Vec<u8>, t: u8, from: usize) -> (i: usize)
    requires
        from <= s@.len(),
    ensures
        i == find_byte(s@, t, from as int),
        from <= i <= s@.len(),
{
    let mut j: usize = from;
    while j < s.len()
        invariant
            from <= j <= s@.len(),
            find_byte(s@, t, from as int) == find_byte(s@, t, j as int),
        decreases s@.len() - j,
    {
        if s[j] == t {
            return j;
        }
        j = j + 1;
    }
    j
}

/// `s` with every leading repetition of `p` dropped.
fn strip_repeated_exec(s: &Vec<u8>, p: &Vec<u8>) -> (r: Vec<u8>)
    requires
        p@.len() > 0,
    ensures
        r@ == strip_repeated(s@, p@),
{
    let n: usize = s.len();
    let mut from: usize = 0;
    proof {
        assert(s@.skip(0) =~= s@);
    }
    while has_prefix_at(s, from, p)
        invariant
            n == s@.len(),
            from <= n,
            p@.len() > 0,
            strip_repeated(s@, p@) == strip_repeated(s@.skip(from as int), p@),
        decreases s@.len() - from,
    {
        proof {
            assert(s@.skip(from as int).skip(p@.len() as int) =~= s@.skip(
                from as int + p@.len() as int,
            ));
        }
        from = from + p.len();
    }
    let r = copy_range(s, from, s.len());
    proof {
        assert(s@.subrange(from as int, s@.len() as int) =~= s@.skip(from as int));
    }
    r
}

/// `s` with ASCII whitespace dropped at both ends.
fn trim_exec(s: &Vec<u8>) -> (r: Vec<u8>)
    ensures
        r@ == trim_bytes(s@),
{
    let mut lo: usize = 0;
    proof {
        assert(s@.skip(0) =~= s@);
    }
    while lo < s.len() && is_space_byte(s[lo])
        invariant
            lo <= s@.len(),
            trim_front(s@) == trim_front(s@.skip(lo as int)),
        decreases s@.len() - lo,
    {
        proof {
            assert(s@.skip(lo as int).skip(1) =~= s@.skip(lo as int + 1));
        }
        lo = lo + 1;
    }
    proof {
        if lo < s@.len() {
            assert(!is_space(s@.skip(lo as int)[0]));
        }
        assert(trim_front(s@) == s@.skip(lo as int));
    }
    let mut hi: usize = s.len();
    proof {
        assert(s@.subrange(lo as int, s@.len() as int) =~= s@.skip(lo as int));
    }
    while hi > lo && is_space_byte(s[hi - 1])
        invariant
            lo <= hi <= s@.len(),
            trim_back(trim_front(s@)) == trim_back(s@.subrange(lo as int, hi as int)),
        decreases hi,
    {
        proof {
            let cur = s@.subrange(lo as int, hi as int);
            assert(cur.last() == s@[hi - 1]);
            assert(cur.drop_last() =~= s@.subrange(lo as int, hi - 1 as int));
        }
        hi = hi - 1;
    }
    proof {
        let cur = s@.subrange(lo as int, hi as int);
        if hi > lo {
            assert(cur.last() == s@[hi - 1]);
        }
        assert(trim_back(cur) == cur);
    }
    copy_range(s, lo, hi)
}

/// ASCII uppercase of a byte string.
fn upper_exec(s: &Vec<u8>) -> (r: Vec<u8>)
    ensures
        r@ == upper_bytes(s@),
{
    let mut r: Vec<u8> = Vec::new();
    let mut i: usize = 0;
    while i < s.len()
        invariant
            i <= s@.len(),
            r@.len() == i,
            forall|k: int| 0 <= k < i ==> r@[k] == to_upper(#[trigger] s@[k]),
        decreases s@.len() - i,
    {
        let b = s[i];
        if 97 <= b && b <= 122 {
            r.push(b - 32);
        } else {
            r.push(b);
        }
        i = i + 1;
    }
    proof {
        assert(r@ =~= upper_bytes(s@));
    }
    r
}

/// Splits a byte string into its lines, as the scanner reads them.
pub fn split_lines(s: &Vec<u8>) -> (lines: Vec<Vec<u8>>)
    ensures
        lines@.map_values(|l: Vec<u8>| l@) == spec_lines(s@),
{
    let mut out: Vec<Vec<u8>> = Vec::new();
    let mut from: usize = 0;
    while from < s.len()
        invariant
            from <= s@.len(),
            spec_lines(s@) == out@.map_values(|l: Vec<u8>| l@) + spec_lines_from(s@, from as nat),
        decreases s@.len() - from,
    {
        let i = find_byte_exec(s, 10, from);
        let ghost prev = out@;
        if i == s.len() {
            let line = copy_range(s, from, s.len());
            out.push(line);
            proof {
                assert(out@.map_values(|l: Vec<u8>| l@) =~= prev.map_values(|l: Vec<u8>| l@)
                    + seq![s@.subrange(from as int, s@.len() as int)]);
                assert(spec_lines_from(s@, from as nat) == seq![
                    s@.subrange(from as int, s@.len() as int),
                ] + spec_lines_from(s@, s@.len() as nat));
                assert(spec_lines(s@) == out@.map_values(|l: Vec<u8>| l@) + spec_lines_from(
                    s@,
                    s@.len() as nat,
                ));
            }
            from = s.len();
        } else {
            let mut line = copy_range(s, from, i);
            if line.len() > 0 && line[line.len() - 1] == 13 {
                line.pop();
                proof {
                    assert(line@ =~= strip_cr(s@.subrange(from as int, i as int)));
                }
            }
            proof {
                assert(line@ == strip_cr(s@.subrange(from as int, i as int)));
            }
            out.push(line);
            proof {
                assert(out@.map_values(|l: Vec<u8>| l@) =~= prev.map_values(|l: Vec<u8>| l@)
                    + seq![strip_cr(s@.subrange(from as int, i as int))]);
            }
            from = i + 1;
        }
    }
    proof {
        assert(spec_lines_from(s@, from as nat) =~= Seq::<Seq<u8>>::empty());
        assert(out@.map_values(|l: Vec<u8>| l@) + Seq::<Seq<u8>>::empty() =~= out@.map_values(
            |l: Vec<u8>| l@,
        ));
    }
    out
}

// ── The scanner ─────────────────────────────────────────────────────────────

/// One flat record scanned out of a knowledge log, all fields byte strings
/// (empty when the log did not supply them).
pub struct LogEntry {
    pub engagement: Vec<u8>,
    pub workstream: Vec<u8>,
    pub date: Vec<u8>,
    pub entry_type: Vec<u8>,
    pub summary: Vec<u8>,
    pub detail: Vec<u8>,
    pub source: Vec<u8>,
}

impl View for LogEntry {
    type V = LogEntryModel;

    open spec fn view(&self) -> LogEntryModel {
        LogEntryModel {
            engagement: self.engagement@,
            workstream: self.workstream@,
            date: self.date@,
            entry_type: self.entry_type@,
            summary: self.summary@,
            detail: self.detail@,
            source: self.source@,
        }
    }
}

/// The scanner's working state while it walks a log's lines.
struct Scanner {
    date: Vec<u8>,
    entry_type: Vec<u8>,
    summary: Vec<u8>,
    detail: Vec<u8>,
    source: Vec<u8>,
    in_entry: bool,
    records: Vec<LogEntry>,
}

impl Scanner {
    spec fn m(self) -> ScanState {
        ScanState {
            date: self.date@,
            entry_type: self.entry_type@,
            summary: self.summary@,
            detail: self.detail@,
            source: self.source@,
            in_entry: self.in_entry,
            records: self.records@.map_values(|e: LogEntry| e@),
        }
    }

    /// Emits the pending entry as one record.
    fn push_entry(&mut self, eng: &Vec<u8>, ws: &Vec<u8>)
        ensures
            final(self).m() == spec_flush(eng@, ws@, old(self).m()),
    {
        let ghost prev = self.records@;
        let rec = LogEntry {
            engagement: copy_bytes(eng),
            workstream: copy_bytes(ws),
            date: copy_bytes(&self.date),
            entry_type: copy_bytes(&self.entry_type),
            summary: copy_bytes(&self.summary),
            detail: copy_bytes(&self.detail),
            source: copy_bytes(&self.source),
        };
        self.records.push(rec);
        proof {
            assert(self.records@.map_values(|e: LogEntry| e@) =~= prev.map_values(
                |e: LogEntry| e@,
            ).push(rec@));
            assert(rec@ =~= record_of(eng@, ws@, old(self).m()));
            assert(final(self).m() =~= spec_flush(eng@, ws@, old(self).m()));
        }
    }

    /// One step of the scanner on one line.
    fn scan_line(&mut self, eng: &Vec<u8>, ws: &Vec<u8>, line: &Vec<u8>)
        ensures
            final(self).m() == spec_step(eng@, ws@, old(self).m(), line@),
    {
        let date_m: Vec<u8> = vec![35u8, 35u8, 32u8];
        let entry_m: Vec<u8> = vec![35u8, 35u8, 35u8, 32u8];
        proof {
            assert(date_m@ =~= date_marker());
            assert(entry_m@ =~= entry_marker());
            assert(line@.skip(0) =~= line@);
        }
        let is_date = has_prefix_at(line, 0, &date_m);
        let is_entry = has_prefix_at(line, 0, &entry_m);
        if is_date && !is_entry {
            if self.in_entry {
                self.push_entry(eng, ws);
            }
            self.date = trim_exec(&strip_repeated_exec(line, &date_m));
            self.in_entry = false;
            proof {
                assert(final(self).m() =~= spec_step(eng@, ws@, old(self).m(), line@));
            }
        } else if is_entry {
            if self.in_entry {
                self.push_entry(eng, ws);
            }
            let header = trim_exec(&strip_repeated_exec(line, &entry_m));
            if header.len() > 0 && header[0] == 91 {
                let rest = copy_range(&header, 1, header.len());
                proof {
                    assert(rest@ =~= header@.skip(1));
                }
                let ci = find_byte_exec(&rest, 93, 0);
                if ci < rest.len() {
                    let raw_type = copy_range(&rest, 0, ci);
                    proof {
                        assert(raw_type@ =~= rest@.take(ci as int));
                    }
                    self.entry_type = upper_exec(&raw_type);
                    let raw_summary = copy_range(&rest, ci + 1, rest.len());
                    proof {
                        assert(raw_summary@ =~= rest@.skip(ci + 1 as int));
                    }
                    self.summary = trim_exec(&raw_summary);
                } else {
                    self.entry_type = Vec::new();
                    self.summary = header;
                }
            } else {
                self.entry_type = Vec::new();
                self.summary = header;
            }
            self.detail = Vec::new();
            self.source = Vec::new();
            self.in_entry = true;
            proof {
                assert(final(self).m() =~= spec_step(eng@, ws@, old(self).m(), line@));
            }
        } else if self.in_entry {
            let bullet_m: Vec<u8> = vec![45u8, 32u8];
            let detail_m: Vec<u8> = vec![
                42u8,
                42u8,
                68u8,
                101u8,
                116u8,
                97u8,
                105u8,
                108u8,
                42u8,
                42u8,
                58u8,
            ];
            let source_m: Vec<u8> = vec![
                42u8,
                42u8,
                83u8,
                111u8,
                117u8,
                114u8,
                99u8,
                101u8,
                42u8,
                42u8,
                58u8,
            ];
            proof {
                assert(bullet_m@ =~= bullet_marker());
                assert(detail_m@ =~= detail_marker());
                assert(source_m@ =~= source_marker());
            }
            let t = strip_repeated_exec(line, &bullet_m);
            proof {
                assert(t@.skip(0) =~= t@);
            }
            if has_prefix_at(&t, 0, &detail_m) {
                let rest = copy_range(&t, detail_m.len(), t.len());
                proof {
                    assert(rest@ =~= t@.skip(detail_marker().len() as int));
                }
                self.detail = trim_exec(&rest);
            } else if has_prefix_at(&t, 0, &source_m) {
                let rest = copy_range(&t, source_m.len(), t.len());
                proof {
                    assert(rest@ =~= t@.skip(source_marker().len() as int));
                }
                self.source = trim_exec(&rest);
            }
            proof {
                assert(final(self).m() =~= spec_step(eng@, ws@, old(self).m(), line@));
            }
        } else {
            proof {
                assert(final(self).m() =~= spec_step(eng@, ws@, old(self).m(), line@));
            }
        }
    }
}

/// Scans a knowledge log into flat records: a line-by-line finite-state
/// walk over date headers, `[TYPE] summary` entry headers and annotation
/// lines, tolerant of malformed or missing fields, which default to the
/// empty string. A pending entry is emitted when the next header or the end
/// of input closes it.
pub fn parse_knowledge_log(content: &Vec<u8>, engagement: &Vec<u8>, workstream: &Vec<u8>) -> (entries:
    Vec<LogEntry>)
    ensures
        entries@.map_values(|e: LogEntry| e@) == spec_parse(content@, engagement@, workstream@),
{
    let lines = split_lines(content);
    let ghost lv: Seq<Seq<u8>> = lines@.map_values(|l: Vec<u8>| l@);
    let mut st = Scanner {
        date: Vec::new(),
        entry_type: Vec::new(),
        summary: Vec::new(),
        detail: Vec::new(),
        source: Vec::new(),
        in_entry: false,
        records: Vec::new(),
    };
    proof {
        assert(st.m() =~= init_state());
        assert(lv.skip(0) =~= lv);
    }
    let mut idx: usize = 0;
    while idx < lines.len()
        invariant
            idx <= lines@.len(),
            lv == lines@.map_values(|l: Vec<u8>| l@),
            spec_scan(engagement@, workstream@, init_state(), lv) == spec_scan(
                engagement@,
                workstream@,
                st.m(),
                lv.skip(idx as int),
            ),
        decreases lines@.len() - idx,
    {
        let ghost before = st.m();
        st.scan_line(engagement, workstream, &lines[idx]);
        proof {
            assert(lv.skip(idx as int)[0] == lv[idx as int]);
            assert(lv[idx as int] == lines@[idx as int]@);
            assert(lv.skip(idx as int).skip(1) =~= lv.skip(idx as int + 1));
            assert(spec_scan(engagement@, workstream@, before, lv.skip(idx as int)) == spec_scan(
                engagement@,
                workstream@,
                st.m(),
                lv.skip(idx as int + 1),
            ));
        }
        idx = idx + 1;
    }
    proof {
        assert(lv.skip(idx as int) =~= Seq::<Seq<u8>>::empty());
        assert(spec_scan(engagement@, workstream@, init_state(), lv) == st.m());
    }
    if st.in_entry {
        st.push_entry(engagement, workstream);
    }
    let entries = st.records;
    proof {
        assert(entries@.map_values(|e: LogEntry| e@) == spec_parse(
            content@,
            engagement@,
            workstream@,
        ));
    }
    entries
}

} // verus!
