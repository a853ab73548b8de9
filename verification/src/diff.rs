use vstd::prelude::*;

verus! {

/// What `similar`'s line-oriented unified diff prints for an old and a
/// new text under a pair of header labels.
pub uninterp spec fn unified_diff(
    old: Seq<u8>,
    new: Seq<u8>,
    old_label: Seq<char>,
    new_label: Seq<char>,
) -> Seq<u8>;

/// Relies on similar::TextDiff::from_lines and its unified-diff printer:
/// the grouped line diff of the two byte texts, preceded by `---` and
/// `+++` header lines naming the labels.  Equal texts produce no hunks
/// and print nothing at all; texts that differ differ in some line and
/// print at least one hunk.  The result depends on the arguments alone.
#[verifier::external_body]
fn unified_diff_bytes(old: &Vec<u8>, new: &Vec<u8>, old_label: &str, new_label: &str) -> (r: Vec<
    u8,
>)
    ensures
        r@ == unified_diff(old@, new@, old_label@, new_label@),
        (r@.len() == 0) == (old@ == new@),
{
    let mut out: Vec<u8> = Vec::new();
    let _ = similar::TextDiff::from_lines(old.as_slice(), new.as_slice())
        .unified_diff()
        .header(old_label, new_label)
        .to_writer(&mut out);
    out
}

/// The terminal escape that starts bold text.
pub open spec fn esc_bold() -> Seq<u8> {
    seq![27u8, 91u8, 49u8, 109u8]
}

/// The terminal escape that starts red text.
pub open spec fn esc_red() -> Seq<u8> {
    seq![27u8, 91u8, 51u8, 49u8, 109u8]
}

/// The terminal escape that starts green text.
pub open spec fn esc_green() -> Seq<u8> {
    seq![27u8, 91u8, 51u8, 50u8, 109u8]
}

/// The terminal escape that starts cyan text.
pub open spec fn esc_cyan() -> Seq<u8> {
    seq![27u8, 91u8, 51u8, 54u8, 109u8]
}

/// The terminal escape that returns to plain text.
pub open spec fn esc_reset() -> Seq<u8> {
    seq![27u8, 91u8, 48u8, 109u8]
}

/// One diff line as printed: the two header lines bold, removals red,
/// additions green, hunk ranges cyan, everything else unmarked — and
/// nothing marked at all when color is off.
pub open spec fn marked_line(line: Seq<u8>, header: bool, color: bool) -> Seq<u8> {
    if !color {
        line
    } else if header {
        esc_bold() + line + esc_reset()
    } else if line.len() > 0 && line[0] == 45 {
        esc_red() + line + esc_reset()
    } else if line.len() > 0 && line[0] == 43 {
        esc_green() + line + esc_reset()
    } else if line.len() > 0 && line[0] == 64 {
        esc_cyan() + line + esc_reset()
    } else {
        line
    }
}

/// The text without its trailing newlines.
pub open spec fn trim_newlines(s: Seq<u8>) -> Seq<u8>
    decreases s.len(),
{
    if s.len() > 0 && s.last() == 10 {
        trim_newlines(s.drop_last())
    } else {
        s
    }
}

/// The position of the first newline byte, if any.
pub open spec fn find_first_nl(s: Seq<u8>) -> Option<int>
    decreases s.len(),
{
    if s.len() == 0 {
        None
    } else if s[0] == 10 {
        Some(0)
    } else {
        match find_first_nl(s.drop_first()) {
            None => None,
            Some(i) => Some(i + 1),
        }
    }
}

/// The first newline really is a newline, is first, and is in range.
pub proof fn lemma_find_first_nl_facts(s: Seq<u8>)
    ensures
        find_first_nl(s) matches Some(i) ==> 0 <= i < s.len() && s[i] == 10 && forall|j: int|
            0 <= j < i ==> s[j] != 10,
        find_first_nl(s) is None ==> forall|j: int| 0 <= j < s.len() ==> s[j] != 10,
    decreases s.len(),
{
    if s.len() > 0 && s[0] != 10 {
        lemma_find_first_nl_facts(s.drop_first());
        let t = s.drop_first();
        match find_first_nl(t) {
            Some(i) => {
                assert forall|j: int| 0 <= j < i + 1 implies s[j] != 10 by {
                    if j > 0 {
                        assert(t[j - 1] == s[j]);
                    }
                }
            },
            None => {
                assert forall|j: int| 0 <= j < s.len() implies s[j] != 10 by {
                    if j > 0 {
                        assert(t[j - 1] == s[j]);
                    }
                }
            },
        }
    }
}

/// A newline-free prefix of length `n`, followed by a newline or the end,
/// pins the first newline down.
pub proof fn lemma_find_first_nl_exact(s: Seq<u8>, n: int)
    requires
        0 <= n <= s.len(),
        forall|j: int| 0 <= j < n ==> s[j] != 10,
        n == s.len() || s[n] == 10,
    ensures
        if n == s.len() {
            find_first_nl(s) is None
        } else {
            find_first_nl(s) == Some(n)
        },
    decreases n,
{
    if n == 0 {
    } else {
        let t = s.drop_first();
        assert forall|j: int| 0 <= j < n - 1 implies t[j] != 10 by {
            assert(t[j] == s[j + 1]);
        }
        if n - 1 < t.len() {
            assert(t[n - 1] == s[n]);
        }
        lemma_find_first_nl_exact(t, n - 1);
    }
}

/// The lines of a text, split at newline bytes; a text without a newline
/// is one line.
pub open spec fn split_lines(s: Seq<u8>) -> Seq<Seq<u8>>
    decreases s.len(),
    via split_lines_dec
{
    match find_first_nl(s) {
        None => seq![s],
        Some(i) => seq![s.take(i)] + split_lines(s.skip(i + 1)),
    }
}

#[via_fn]
proof fn split_lines_dec(s: Seq<u8>) {
    lemma_find_first_nl_facts(s);
}

/// The printed form of a list of diff lines: each line marked by its
/// kind — the first two are the headers — and terminated by a newline.
pub open spec fn colorized_lines(lines: Seq<Seq<u8>>, color: bool) -> Seq<u8>
    decreases lines.len(),
{
    if lines.len() == 0 {
        Seq::empty()
    } else {
        colorized_lines(lines.drop_last(), color) + marked_line(
            lines.last(),
            lines.len() - 1 < 2,
            color,
        ) + seq![10u8]
    }
}

/// The printed form of one nonempty unified diff: its trailing newlines
/// dropped, then every line marked by kind and newline-terminated.
pub open spec fn colorized(diff: Seq<u8>, color: bool) -> Seq<u8> {
    colorized_lines(split_lines(trim_newlines(diff)), color)
}

/// The bytes of `s` between `from` and `to`.
fn bytes_range(s: &Vec<u8>, from: usize, to: usize) -> (r: Vec<u8>)
    requires
        from <= to <= s@.len(),
    ensures
        r@ == s@.subrange(from as int, to as int),
{
    let mut r: Vec<u8> = Vec::new();
    let mut i: usize = from;
    while i < to
        invariant
            from <= i <= to <= s@.len(),
            r@ =~= s@.subrange(from as int, i as int),
        decreases to - i,
    {
        r.push(s[i]);
        proof {
            assert(r@ =~= s@.subrange(from as int, i + 1));
        }
        i = i + 1;
    }
    proof {
        assert(r@ =~= s@.subrange(from as int, to as int));
    }
    r
}

/// Append `v` to `out`.
fn append_bytes(out: &mut Vec<u8>, v: &Vec<u8>)
    ensures
        final(out)@ == old(out)@ + v@,
{
    let mut i: usize = 0;
    while i < v.len()
        invariant
            i <= v@.len(),
            out@ =~= old(out)@ + v@.take(i as int),
        decreases v@.len() - i,
    {
        out.push(v[i]);
        proof {
            assert(out@ =~= old(out)@ + v@.take(i + 1));
        }
        i = i + 1;
    }
    proof {
        assert(out@ =~= old(out)@ + v@);
    }
}

/// Append one marked, newline-terminated diff line to `out`.
fn emit_line(out: &mut Vec<u8>, line: &Vec<u8>, header: bool, color: bool)
    ensures
        final(out)@ == old(out)@ + marked_line(line@, header, color) + seq![10u8],
{
    if !color {
        append_bytes(out, line);
    } else if header {
        out.push(27u8);
        out.push(91u8);
        out.push(49u8);
        out.push(109u8);
        append_bytes(out, line);
        out.push(27u8);
        out.push(91u8);
        out.push(48u8);
        out.push(109u8);
        proof {
            assert(out@ =~= old(out)@ + (esc_bold() + line@ + esc_reset()));
        }
    } else if line.len() > 0 && line[0] == 45u8 {
        out.push(27u8);
        out.push(91u8);
        out.push(51u8);
        out.push(49u8);
        out.push(109u8);
        append_bytes(out, line);
        out.push(27u8);
        out.push(91u8);
        out.push(48u8);
        out.push(109u8);
        proof {
            assert(out@ =~= old(out)@ + (esc_red() + line@ + esc_reset()));
        }
    } else if line.len() > 0 && line[0] == 43u8 {
        out.push(27u8);
        out.push(91u8);
        out.push(51u8);
        out.push(50u8);
        out.push(109u8);
        append_bytes(out, line);
        out.push(27u8);
        out.push(91u8);
        out.push(48u8);
        out.push(109u8);
        proof {
            assert(out@ =~= old(out)@ + (esc_green() + line@ + esc_reset()));
        }
    } else if line.len() > 0 && line[0] == 64u8 {
        out.push(27u8);
        out.push(91u8);
        out.push(51u8);
        out.push(54u8);
        out.push(109u8);
        append_bytes(out, line);
        out.push(27u8);
        out.push(91u8);
        out.push(48u8);
        out.push(109u8);
        proof {
            assert(out@ =~= old(out)@ + (esc_cyan() + line@ + esc_reset()));
        }
    } else {
        append_bytes(out, line);
    }
    out.push(10u8);
    proof {
        assert(out@ =~= old(out)@ + marked_line(line@, header, color) + seq![10u8]);
    }
}

/// Append the printed form of one nonempty diff to `out`: trailing
/// newlines dropped, every line marked by kind and newline-terminated.
fn append_colorized(out: &mut Vec<u8>, diff: &Vec<u8>, color: bool)
    ensures
        final(out)@ == old(out)@ + colorized(diff@, color),
{
    // drop trailing newlines
    let mut m: usize = diff.len();
    while m > 0 && diff[m - 1] == 10u8
        invariant
            m <= diff@.len(),
            forall|j: int| m <= j < diff@.len() ==> diff@[j] == 10,
        decreases m,
    {
        m = m - 1;
    }
    proof {
        lemma_trim_at(diff@, m as int);
    }
    let t = bytes_range(diff, 0, m);
    proof {
        assert(t@ =~= trim_newlines(diff@));
        assert(t@.skip(0) =~= t@);
    }
    // split into lines, marking and emitting as they close
    let ghost mut glines: Seq<Seq<u8>> = Seq::empty();
    let mut start: usize = 0;
    let mut nlines: usize = 0;
    let mut done: bool = false;
    proof {
        assert(glines + split_lines(t@.skip(0)) =~= split_lines(t@));
    }
    while !done
        invariant
            start <= t@.len(),
            nlines as int == (if glines.len() < 2 { glines.len() as int } else { 2int }),
            out@ == old(out)@ + colorized_lines(glines, color),
            !done ==> glines + split_lines(t@.skip(start as int)) =~= split_lines(t@),
            done ==> glines =~= split_lines(t@),
        decreases t@.len() - start + (if done { 0int } else { 1int }),
    {
        // scan for the next newline
        let mut j: usize = start;
        while j < t.len() && t[j] != 10u8
            invariant
                start <= j <= t@.len(),
                forall|q: int| start <= q < j ==> t@[q] != 10,
            decreases t@.len() - j,
        {
            j = j + 1;
        }
        let line = bytes_range(&t, start, j);
        proof {
            let rest = t@.skip(start as int);
            assert forall|q: int| 0 <= q < j - start implies rest[q] != 10 by {
                assert(rest[q] == t@[start + q]);
            }
            if j < t@.len() {
                assert(rest[j - start] == t@[j as int]);
            }
            lemma_find_first_nl_exact(rest, j - start);
            assert(line@ =~= rest.take(j - start));
        }
        emit_line(out, &line, nlines < 2, color);
        proof {
            let rest = t@.skip(start as int);
            if j == t.len() {
                assert(split_lines(rest) =~= seq![line@]);
            } else {
                assert(rest.skip(j - start + 1) =~= t@.skip(j + 1));
                assert(split_lines(rest) =~= seq![line@] + split_lines(t@.skip(j + 1)));
            }
            assert(colorized_lines(glines.push(line@), color) =~= colorized_lines(glines, color)
                + marked_line(line@, glines.len() < 2, color) + seq![10u8]) by {
                assert(glines.push(line@).drop_last() =~= glines);
            }
        }
        proof {
            glines = glines.push(line@);
        }
        if nlines < 2 {
            nlines = nlines + 1;
        }
        if j == t.len() {
            done = true;
            proof {
                assert(glines =~= split_lines(t@));
            }
        } else {
            proof {
                assert(glines + split_lines(t@.skip(j + 1)) =~= split_lines(t@));
            }
            start = j + 1;
        }
    }
}

/// Trimming stops exactly where the trailing newline run starts.
proof fn lemma_trim_at(s: Seq<u8>, m: int)
    requires
        0 <= m <= s.len(),
        forall|j: int| m <= j < s.len() ==> s[j] == 10,
        m > 0 ==> s[m - 1] != 10,
    ensures
        trim_newlines(s) == s.take(m),
    decreases s.len() - m,
{
    if m < s.len() {
        assert(s.last() == 10);
        let d = s.drop_last();
        assert forall|j: int| m <= j < d.len() implies d[j] == 10 by {
            assert(d[j] == s[j]);
        }
        if m > 0 {
            assert(d[m - 1] == s[m - 1]);
        }
        lemma_trim_at(d, m);
        assert(d.take(m) =~= s.take(m));
    } else {
        assert(s.take(m) =~= s);
    }
}

/// One artifact to report on: its output path, the cached baseline (or
/// nothing, for a newly introduced artifact), and the freshly rendered
/// bytes.
#[derive(Debug)]
pub struct DiffEntry {
    pub path: String,
    pub cached: Option<Vec<u8>>,
    pub rendered: Vec<u8>,
}

/// The bytes of an optional baseline.
pub open spec fn cached_view(c: Option<Vec<u8>>) -> Option<Seq<u8>> {
    match c {
        None => None,
        Some(v) => Some(v@),
    }
}

/// The text an entry is compared against: its baseline, or empty text
/// for a newly introduced artifact.
pub open spec fn baseline_of(c: Option<Seq<u8>>) -> Seq<u8> {
    match c {
        None => Seq::empty(),
        Some(v) => v,
    }
}

/// A printed diff is never empty: it holds at least one marked,
/// newline-terminated line.
pub proof fn lemma_colorized_nonempty(diff: Seq<u8>, color: bool)
    ensures
        colorized(diff, color).len() > 0,
{
    let t = trim_newlines(diff);
    let lines = split_lines(t);
    match find_first_nl(t) {
        None => {
            assert(lines == seq![t]);
        },
        Some(i) => {
            assert(lines == seq![t.take(i)] + split_lines(t.skip(i + 1)));
        },
    }
    assert(lines.len() >= 1);
    assert(colorized_lines(lines, color) == colorized_lines(lines.drop_last(), color)
        + marked_line(lines.last(), lines.len() - 1 < 2, color) + seq![10u8]);
}

/// The report one entry contributes: nothing when its diff is empty,
/// else the diff's lines marked by kind.  A missing baseline is compared
/// as empty text under the null-device label.
pub open spec fn entry_report(
    path: Seq<char>,
    cached: Option<Seq<u8>>,
    rendered: Seq<u8>,
    color: bool,
) -> Seq<u8> {
    let old = match cached {
        None => Seq::empty(),
        Some(c) => c,
    };
    let old_label = match cached {
        None => "/dev/null"@,
        Some(_) => path,
    };
    let d = unified_diff(old, rendered, old_label, path);
    if d.len() == 0 {
        Seq::empty()
    } else {
        colorized(d, color)
    }
}

/// The whole report, entry by entry in order.
pub open spec fn report_spec(entries: Seq<DiffEntry>, color: bool) -> Seq<u8>
    decreases entries.len(),
{
    if entries.len() == 0 {
        Seq::empty()
    } else {
        report_spec(entries.drop_last(), color) + entry_report(
            entries.last().path@,
            cached_view(entries.last().cached),
            entries.last().rendered@,
            color,
        )
    }
}

/// Compare every rendered artifact against its cached baseline and print
/// what would change: per entry a unified diff with the cache-relative
/// path as both labels (the null device standing in for a missing
/// baseline), its lines marked by kind unless color is off.  An artifact
/// whose rendered content equals its baseline contributes not one byte;
/// one that differs from its baseline always contributes output.
pub fn diff_report(entries: &Vec<DiffEntry>, color: bool) -> (r: Vec<u8>)
    ensures
        r@ == report_spec(entries@, color),
        forall|k: int|
            0 <= k < entries@.len() && cached_view(#[trigger] entries@[k].cached) == Some(
                entries@[k].rendered@,
            ) ==> entry_report(
                entries@[k].path@,
                cached_view(entries@[k].cached),
                entries@[k].rendered@,
                color,
            ) == Seq::<u8>::empty(),
        forall|k: int|
            0 <= k < entries@.len() && baseline_of(cached_view(#[trigger] entries@[k].cached))
                != entries@[k].rendered@ ==> entry_report(
                entries@[k].path@,
                cached_view(entries@[k].cached),
                entries@[k].rendered@,
                color,
            ).len() > 0,
{
    let empty_baseline: Vec<u8> = Vec::new();
    let mut out: Vec<u8> = Vec::new();
    let mut i: usize = 0;
    while i < entries.len()
        invariant
            i <= entries@.len(),
            empty_baseline@ == Seq::<u8>::empty(),
            out@ == report_spec(entries@.take(i as int), color),
            forall|k: int|
                0 <= k < i && cached_view(#[trigger] entries@[k].cached) == Some(
                    entries@[k].rendered@,
                ) ==> entry_report(
                    entries@[k].path@,
                    cached_view(entries@[k].cached),
                    entries@[k].rendered@,
                    color,
                ) == Seq::<u8>::empty(),
            forall|k: int|
                0 <= k < i && baseline_of(cached_view(#[trigger] entries@[k].cached))
                    != entries@[k].rendered@ ==> entry_report(
                    entries@[k].path@,
                    cached_view(entries@[k].cached),
                    entries@[k].rendered@,
                    color,
                ).len() > 0,
        decreases entries@.len() - i,
    {
        let e = &entries[i];
        let diff = match &e.cached {
            None => unified_diff_bytes(&empty_baseline, &e.rendered, "/dev/null", e.path.as_str()),
            Some(c) => unified_diff_bytes(c, &e.rendered, e.path.as_str(), e.path.as_str()),
        };
        if diff.len() > 0 {
            append_colorized(&mut out, &diff, color);
        }
        proof {
            lemma_colorized_nonempty(diff@, color);
            let t1 = entries@.take(i + 1);
            assert(t1.drop_last() =~= entries@.take(i as int));
            assert(t1.last() == entries@[i as int]);
        }
        i = i + 1;
    }
    proof {
        assert(entries@.take(entries@.len() as int) =~= entries@);
    }
    out
}

} // verus!
