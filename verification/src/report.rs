//! The report of a scan as lines of plain text: the sets that are
//! shown, the statistics by extension, and the overview.

use vstd::prelude::*;
use crate::age_display::age_range_text;
use crate::age_display::days_age_display;
use crate::criteria::Criteria;
use crate::decimal::clamp_u64;
use crate::display::short_pattern;
use crate::display::size_display;
use crate::display::to_short_pattern;
use crate::display::decimal_text;
use crate::display::duration_text;
use crate::display::plural_text;
use crate::display::pluralize_64;
use crate::display::push_decimal;
use crate::display::size_text;
use crate::display::smart_size;
use crate::entry::root_text;
use crate::entry::EntryInfo;
use crate::extension_stats::histogram;
use crate::extension_stats::tallies;
use crate::extension_stats::ExtensionStats;
use crate::extension_stats::Tally;
use crate::paths::relative_path_of;
use crate::resource_row::age_at;
use crate::resource_row::modified_text;
use crate::resource_row::DetailLevel;
use crate::resource_row::ResourceRow;
use crate::resource_row::RowModel;
use crate::resource_set::subdirs_text;
use crate::resource_set::total_size;
use crate::resource_set::ResourceSet;
use crate::resource_set::SetModel;
use crate::resource_tree::clamp_usize;
use crate::resource_tree::first_largest;
use crate::resource_tree::first_level_count;
use crate::resource_tree::first_smallest;
use crate::resource_tree::flat_rows;
use crate::resource_tree::lemma_extremes_in_bounds;
use crate::resource_tree::reached_depth;
use crate::resource_tree::ResourceTree;
use crate::resource_tree::TreeModel;
use crate::text::append_str;
use crate::text::chars_of;
use crate::text::join_texts;
use crate::text::join_with;
use crate::text::text_of;
use crate::text::texts;

verus! {

/// `text` with spaces before it up to the width `width`.
pub open spec fn pad_start(text: Seq<char>, width: nat) -> Seq<char> {
    if text.len() >= width {
        text
    } else {
        Seq::new((width - text.len()) as nat, |i: int| ' ') + text
    }
}

/// `text` with spaces after it up to the width `width`.
pub open spec fn pad_end(text: Seq<char>, width: nat) -> Seq<char> {
    if text.len() >= width {
        text
    } else {
        text + Seq::new((width - text.len()) as nat, |i: int| ' ')
    }
}

/// The name of a line of the overview, and the space after it.
pub open spec fn label(name: Seq<char>) -> Seq<char> {
    pad_end(name, 12) + seq![' ']
}

/// The line of one file: its age, the moment it was modified, its
/// size, its extension, its depth and its path as seen from the root,
/// with tabs between them. A file that was removed is marked `[del]`.
pub open spec fn row_line(row: RowModel, root: Option<EntryInfo>, now: i64) -> Seq<char> {
    pad_start(duration_text(age_at(row.ts, now)), 9) + seq!['\t'] + modified_text(row.ts) + seq![
        '\t',
    ] + pad_start(size_text(row.file.size), 9) + seq!['\t'] + row.extension + seq!['\t']
        + decimal_text(row.file.depth as nat) + seq!['\t'] + relative_path_of(
        row.file.path@,
        root_text(root),
    ) + if row.deleted {
        " [del]"@
    } else {
        Seq::empty()
    }
}

/// The line of one set: the number of its files, the number of the
/// directories in it, the total size of its files, and its path as
/// seen from the root.
pub open spec fn set_line(set: SetModel, root: Option<EntryInfo>) -> Seq<char> {
    pad_start(decimal_text(set.rows.len()), 8) + seq![' '] + plural_text(
        "file"@,
        "s"@,
        set.rows.len() as u64,
    ) + seq!['\t'] + pad_start(subdirs_text(set.num_subs), 10) + seq!['\t'] + pad_end(
        size_text(clamp_u64(total_size(set.rows))),
        10,
    ) + seq!['\t'] + pad_start(relative_path_of(set.parent.path@, root_text(root)), 9)
}

/// The line of one extension: the extension, the number of files with
/// it, and their total size.
pub open spec fn tally_line(t: Tally) -> Seq<char> {
    pad_start(
        if t.key.len() > 0 {
            t.key
        } else {
            "[none]"@
        },
        10,
    ) + seq!['\t'] + pad_start(decimal_text(t.count as nat), 9) + seq![' '] + plural_text(
        "file"@,
        "s"@,
        t.count as u64,
    ) + seq!['\t'] + size_text(t.size)
}

/// The lines of the files `rows`.
pub open spec fn row_lines(rows: Seq<RowModel>, root: Option<EntryInfo>, now: i64) -> Seq<
    Seq<char>,
>
    decreases rows.len(),
{
    if rows.len() == 0 {
        Seq::empty()
    } else {
        row_lines(rows.drop_last(), root, now).push(row_line(rows.last(), root, now))
    }
}

/// The report shows the set: the scan has a root, the set lies above
/// the depth limit, and it holds a file or empty directories are
/// shown.
pub open spec fn set_shown(t: TreeModel, set: SetModel, details: DetailLevel) -> bool {
    t.root is Some && set.parent.depth < t.max_depth && (details.show_void_directories
        || set.rows.len() > 0)
}

/// The lines of the first `n` sets: for each set that is shown, the
/// lines of its files if files are shown, and the line of the set.
pub open spec fn set_lines(t: TreeModel, details: DetailLevel, now: i64, n: nat) -> Seq<Seq<char>>
    decreases n,
{
    if n == 0 || n > t.sets.len() {
        Seq::empty()
    } else {
        let before = set_lines(t, details, now, (n - 1) as nat);
        let set = t.sets[n - 1];
        if !set_shown(t, set, details) {
            before
        } else if details.show_files {
            (before + row_lines(set.rows, t.root, now)).push(set_line(set, t.root))
        } else {
            before.push(set_line(set, t.root))
        }
    }
}

/// The lines of the tallies.
pub open spec fn tally_lines(t: Seq<Tally>) -> Seq<Seq<char>>
    decreases t.len(),
{
    if t.len() == 0 {
        Seq::empty()
    } else {
        tally_lines(t.drop_last()).push(tally_line(t.last()))
    }
}

/// The part of the report on the extensions: a heading and the lines
/// of the statistics; nothing where it is not asked for.
pub open spec fn group_lines(rows: Seq<RowModel>, details: DetailLevel) -> Seq<Seq<char>> {
    if details.show_extension_groups {
        seq!["BY EXTENSION"@] + tally_lines(histogram(rows))
    } else {
        Seq::empty()
    }
}

/// A file as the overview names it: what is said of it, and its name
/// in round brackets.
pub open spec fn named_file(word: Seq<char>, said: Seq<char>, row: RowModel) -> Seq<char> {
    word + seq![' '] + said + seq![' ', '('] + row.file.file_name@ + seq![')']
}

/// The line of the overview on the ages: the newest and the oldest
/// file.
pub open spec fn age_range_line(rows: Seq<RowModel>, now: i64) -> Seq<char>
    recommends
        rows.len() > 0,
{
    let newest = rows[first_smallest(rows, true, now)];
    let oldest = rows[first_largest(rows, true, now)];
    label("age range"@) + named_file("newest:"@, duration_text(age_at(newest.ts, now)), newest)
        + seq![',', ' '] + named_file("oldest:"@, duration_text(age_at(oldest.ts, now)), oldest)
}

/// The line of the overview on the sizes: the smallest and the
/// largest file.
pub open spec fn size_range_line(rows: Seq<RowModel>) -> Seq<char>
    recommends
        rows.len() > 0,
{
    let smallest = rows[first_smallest(rows, false, 0)];
    let largest = rows[first_largest(rows, false, 0)];
    label("size range"@) + named_file("min."@, size_text(smallest.file.size), smallest) + seq![
        ',',
        ' ',
    ] + named_file("max."@, size_text(largest.file.size), largest)
}

/// The line of the overview on the root.
pub open spec fn path_line(t: TreeModel) -> Seq<char> {
    label("path"@) + match t.root {
        Some(root) => root.path@,
        None => Seq::empty(),
    }
}

/// The line of the overview on the number of files, with the number
/// of directories directly below the root where there are any.
pub open spec fn total_line(t: TreeModel) -> Seq<char> {
    let subs = first_level_count(t.sets);
    label("total files"@) + decimal_text(clamp_usize(flat_rows(t.sets).len()) as nat) + if subs
        > 0 {
        seq!['\t', '('] + decimal_text(subs) + seq![' '] + plural_text("subdir"@, "s"@, subs as u64)
            + seq![')']
    } else {
        Seq::empty()
    }
}

/// The line of the overview on the total size.
pub open spec fn total_size_line(t: TreeModel) -> Seq<char> {
    label("tot. size"@) + size_text(clamp_u64(total_size(flat_rows(t.sets))))
}

/// The line of the overview on the depth that was reached.
pub open spec fn depth_line(t: TreeModel) -> Seq<char> {
    label("max depth"@) + decimal_text(clamp_usize(reached_depth(t.sets)) as nat) + " (limit: "@
        + decimal_text(t.max_depth as nat) + seq![')']
}

/// The overview: the path of the root and the number of files. Where
/// there is a file: the newest and the oldest file, the total size,
/// the smallest and the largest file where there are more than two,
/// and the depth that was reached.
pub open spec fn overview_lines(t: TreeModel, now: i64) -> Seq<Seq<char>> {
    let rows = flat_rows(t.sets);
    let head = seq!["OVERVIEW"@, path_line(t), total_line(t)];
    if rows.len() == 0 {
        head
    } else {
        let sized = head.push(age_range_line(rows, now)).push(total_size_line(t));
        let ranged = if rows.len() > 2 {
            sized.push(size_range_line(rows))
        } else {
            sized
        };
        ranged.push(depth_line(t))
    }
}

/// The whole report.
pub open spec fn report_lines(t: TreeModel, details: DetailLevel, now: i64) -> Seq<Seq<char>> {
    set_lines(t, details, now, t.sets.len()) + group_lines(flat_rows(t.sets), details)
        + overview_lines(t, now)
}

/// Appends `n` spaces.
fn push_spaces(acc: &mut Vec<char>, n: usize)
    ensures
        final(acc)@ == old(acc)@ + Seq::new(n as nat, |i: int| ' '),
{
    let mut k: usize = 0;
    assert(acc@ == old(acc)@ + Seq::new(0, |i: int| ' '));
    while k < n
        invariant
            k <= n,
            acc@ == old(acc)@ + Seq::new(k as nat, |i: int| ' '),
        decreases n - k,
    {
        acc.push(' ');
        assert(acc@ == old(acc)@ + Seq::new((k + 1) as nat, |i: int| ' '));
        k += 1;
    }
}

/// Appends `text` with spaces before it up to the width `width`.
fn push_padded_start(acc: &mut Vec<char>, text: &str, width: usize)
    ensures
        final(acc)@ == old(acc)@ + pad_start(text@, width as nat),
{
    let v = chars_of(text);
    if v.len() < width {
        push_spaces(acc, width - v.len());
    }
    crate::text::append_chars(acc, &v);
    assert(acc@ == old(acc)@ + pad_start(text@, width as nat));
}

/// Appends `text` with spaces after it up to the width `width`.
fn push_padded_end(acc: &mut Vec<char>, text: &str, width: usize)
    ensures
        final(acc)@ == old(acc)@ + pad_end(text@, width as nat),
{
    let v = chars_of(text);
    crate::text::append_chars(acc, &v);
    if v.len() < width {
        push_spaces(acc, width - v.len());
    }
    assert(acc@ == old(acc)@ + pad_end(text@, width as nat));
}

/// Appends the name of a line of the overview.
fn push_label(acc: &mut Vec<char>, name: &str)
    ensures
        final(acc)@ == old(acc)@ + label(name@),
{
    push_padded_end(acc, name, 12);
    acc.push(' ');
}

/// Appends a file as the overview names it.
fn push_named_file(acc: &mut Vec<char>, word: &str, said: &str, row: &ResourceRow)
    ensures
        final(acc)@ == old(acc)@ + named_file(word@, said@, row@),
{
    append_str(acc, word);
    acc.push(' ');
    append_str(acc, said);
    acc.push(' ');
    acc.push('(');
    append_str(acc, row.file.file_name.as_str());
    acc.push(')');
}

impl ResourceRow {
    /// The line of the file in the report.
    pub fn line(&self, root_ref: &Option<EntryInfo>, now: i64) -> (r: String)
        ensures
            r@ == row_line(self@, *root_ref, now),
    {
        let mut acc: Vec<char> = Vec::new();
        push_padded_start(&mut acc, self.age_display_at(now).as_str(), 9);
        acc.push('\t');
        append_str(&mut acc, self.modified_display().as_str());
        acc.push('\t');
        push_padded_start(&mut acc, self.smart_size().as_str(), 9);
        acc.push('\t');
        append_str(&mut acc, self.extension.as_str());
        acc.push('\t');
        push_decimal(&mut acc, self.depth() as u64);
        acc.push('\t');
        append_str(&mut acc, self.file_display(root_ref).as_str());
        if self.deleted {
            append_str(&mut acc, " [del]");
        }
        assert(acc@ == row_line(self@, *root_ref, now));
        text_of(&acc)
    }
}

impl ResourceSet {
    /// The line of the set in the report.
    pub fn line(&self, root_ref: &Option<EntryInfo>) -> (r: String)
        ensures
            r@ == set_line(self@, *root_ref),
    {
        let mut acc: Vec<char> = Vec::new();
        let mut count: Vec<char> = Vec::new();
        push_decimal(&mut count, self.count() as u64);
        push_padded_start(&mut acc, text_of(&count).as_str(), 8);
        acc.push(' ');
        append_str(&mut acc, pluralize_64("file", "s", self.count() as u64).as_str());
        acc.push('\t');
        push_padded_start(&mut acc, self.num_sub_dirs_display().as_str(), 10);
        acc.push('\t');
        push_padded_end(&mut acc, self.smart_size().as_str(), 10);
        acc.push('\t');
        push_padded_start(&mut acc, self.path_display(root_ref).as_str(), 9);
        assert(acc@ == set_line(self@, *root_ref));
        text_of(&acc)
    }
}

impl ExtensionStats {
    /// The line of the extension in the report.
    pub fn line(&self) -> (r: String)
        ensures
            r@ == tally_line(self@),
    {
        let mut acc: Vec<char> = Vec::new();
        if self.key.as_str().is_empty() {
            push_padded_start(&mut acc, "[none]", 10);
        } else {
            push_padded_start(&mut acc, self.key.as_str(), 10);
        }
        acc.push('\t');
        let mut count: Vec<char> = Vec::new();
        push_decimal(&mut count, self.count as u64);
        push_padded_start(&mut acc, text_of(&count).as_str(), 9);
        acc.push(' ');
        append_str(&mut acc, pluralize_64("file", "s", self.count as u64).as_str());
        acc.push('\t');
        append_str(&mut acc, smart_size(self.size).as_str());
        assert(acc@ == tally_line(self@));
        text_of(&acc)
    }
}

impl ResourceTree {
    /// Appends the lines of the sets that are shown.
    fn push_set_lines(&self, lines: &mut Vec<String>, details: &DetailLevel, now: i64)
        ensures
            texts(final(lines)@) == texts(old(lines)@) + set_lines(
                self@,
                *details,
                now,
                self@.sets.len(),
            ),
    {
        let n: usize = self.num_dirs();
        let mut at: usize = 0;
        assert(texts(lines@) + set_lines(self@, *details, now, 0) == texts(lines@));
        while at < n
            invariant
                at <= n == self@.sets.len(),
                texts(lines@) == texts(old(lines)@) + set_lines(self@, *details, now, at as nat),
            decreases n - at,
        {
            let ghost start = texts(old(lines)@) + set_lines(self@, *details, now, at as nat);
            if self.shows(at, details) {
                let set = self.directory(at);
                if details.show_files {
                    let mut ri: usize = 0;
                    assert(start + row_lines(set@.rows.take(0), self@.root, now) == start);
                    while ri < set.resources.len()
                        invariant
                            ri <= set.resources.len(),
                            texts(lines@) == start + row_lines(
                                set@.rows.take(ri as int),
                                self@.root,
                                now,
                            ),
                        decreases set.resources.len() - ri,
                    {
                        let ghost before = texts(lines@);
                        proof {
                            let upto = set@.rows.take(ri + 1);
                            assert(upto.drop_last() == set@.rows.take(ri as int));
                            assert(upto.last() == set.resources@[ri as int]@);
                        }
                        let line = set.resources[ri].line(self.root_ref(), now);
                        lines.push(line);
                        assert(texts(lines@) == before.push(
                            row_line(set.resources@[ri as int]@, self@.root, now),
                        ));
                        ri += 1;
                    }
                    assert(set@.rows.take(set.resources.len() as int) == set@.rows);
                }
                let ghost before = texts(lines@);
                let line = set.line(self.root_ref());
                lines.push(line);
                assert(texts(lines@) == before.push(set_line(set@, self@.root)));
            }
            at += 1;
        }
    }

    /// Appends the part of the report on the extensions.
    fn push_group_lines(&self, lines: &mut Vec<String>, details: &DetailLevel)
        ensures
            texts(final(lines)@) == texts(old(lines)@) + group_lines(self.rows(), *details),
    {
        if details.show_extension_groups {
            let ghost start = texts(lines@).push("BY EXTENSION"@);
            lines.push("BY EXTENSION".to_owned());
            assert(texts(lines@) == start);
            let stats = self.build_extension_map();
            let mut i: usize = 0;
            assert(start + tally_lines(tallies(stats@).take(0)) == start);
            while i < stats.len()
                invariant
                    i <= stats.len(),
                    texts(lines@) == start + tally_lines(tallies(stats@).take(i as int)),
                decreases stats.len() - i,
            {
                let ghost before = texts(lines@);
                proof {
                    let upto = tallies(stats@).take(i + 1);
                    assert(upto.drop_last() == tallies(stats@).take(i as int));
                    assert(upto.last() == stats@[i as int]@);
                }
                let line = stats[i].line();
                lines.push(line);
                assert(texts(lines@) == before.push(tally_line(stats@[i as int]@)));
                i += 1;
            }
            assert(tallies(stats@).take(stats.len() as int) == tallies(stats@));
            assert(texts(lines@) == texts(old(lines)@) + (seq!["BY EXTENSION"@] + tally_lines(
                histogram(self.rows()),
            )));
        } else {
            assert(texts(lines@) + Seq::<Seq<char>>::empty() == texts(lines@));
        }
    }

    /// The line of the overview on the root.
    fn path_line(&self) -> (r: String)
        ensures
            r@ == path_line(self@),
    {
        let mut acc: Vec<char> = Vec::new();
        push_label(&mut acc, "path");
        append_str(&mut acc, self.path_display().as_str());
        text_of(&acc)
    }

    /// The line of the overview on the number of files.
    fn total_line(&self) -> (r: String)
        ensures
            r@ == total_line(self@),
    {
        let mut acc: Vec<char> = Vec::new();
        push_label(&mut acc, "total files");
        push_decimal(&mut acc, self.num_files() as u64);
        let subs = self.num_sub_dirs();
        if subs > 0 {
            acc.push('\t');
            acc.push('(');
            push_decimal(&mut acc, subs as u64);
            acc.push(' ');
            append_str(&mut acc, pluralize_64("subdir", "s", subs as u64).as_str());
            acc.push(')');
        }
        assert(acc@ == total_line(self@));
        text_of(&acc)
    }

    /// The line of the overview on the ages.
    fn age_line(&self, now: i64) -> (r: String)
        requires
            self.rows().len() > 0,
        ensures
            r@ == age_range_line(self.rows(), now),
    {
        proof {
            lemma_extremes_in_bounds(self.rows(), true, now);
        }
        let (newest, oldest) = self.get_oldest_newest_files_at(now);
        let mut acc: Vec<char> = Vec::new();
        push_label(&mut acc, "age range");
        match (&newest, &oldest) {
            (Some(young), Some(aged)) => {
                push_named_file(&mut acc, "newest:", young.age_display_at(now).as_str(), young);
                acc.push(',');
                acc.push(' ');
                push_named_file(&mut acc, "oldest:", aged.age_display_at(now).as_str(), aged);
            },
            _ => {},
        }
        assert(acc@ == age_range_line(self.rows(), now));
        text_of(&acc)
    }

    /// The line of the overview on the sizes.
    fn size_line(&self) -> (r: String)
        requires
            self.rows().len() > 0,
        ensures
            r@ == size_range_line(self.rows()),
    {
        proof {
            lemma_extremes_in_bounds(self.rows(), false, 0);
        }
        let (smallest, largest) = self.get_min_max_files();
        let mut acc: Vec<char> = Vec::new();
        push_label(&mut acc, "size range");
        match (&smallest, &largest) {
            (Some(small), Some(large)) => {
                push_named_file(&mut acc, "min.", small.smart_size().as_str(), small);
                acc.push(',');
                acc.push(' ');
                push_named_file(&mut acc, "max.", large.smart_size().as_str(), large);
            },
            _ => {},
        }
        assert(acc@ == size_range_line(self.rows()));
        text_of(&acc)
    }

    /// The line of the overview on the total size.
    fn total_size_line(&self) -> (r: String)
        ensures
            r@ == total_size_line(self@),
    {
        let mut acc: Vec<char> = Vec::new();
        push_label(&mut acc, "tot. size");
        append_str(&mut acc, self.smart_size().as_str());
        text_of(&acc)
    }

    /// The line of the overview on the depth.
    fn depth_line(&self) -> (r: String)
        ensures
            r@ == depth_line(self@),
    {
        let mut acc: Vec<char> = Vec::new();
        push_label(&mut acc, "max depth");
        push_decimal(&mut acc, self.max_depth_scanned() as u64);
        append_str(&mut acc, " (limit: ");
        push_decimal(&mut acc, self.depth_limit() as u64);
        acc.push(')');
        assert(acc@ == depth_line(self@));
        text_of(&acc)
    }

    /// Appends the overview.
    fn push_overview_lines(&self, lines: &mut Vec<String>, now: i64)
        ensures
            texts(final(lines)@) == texts(old(lines)@) + overview_lines(self@, now),
    {
        let ghost start = texts(lines@);
        let num_files = self.num_files();
        lines.push("OVERVIEW".to_owned());
        lines.push(self.path_line());
        lines.push(self.total_line());
        let ghost head = seq!["OVERVIEW"@, path_line(self@), total_line(self@)];
        assert(texts(lines@) == start + head);
        if num_files > 0 {
            lines.push(self.age_line(now));
            lines.push(self.total_size_line());
            let ghost sized = head.push(age_range_line(self.rows(), now)).push(
                total_size_line(self@),
            );
            assert(texts(lines@) == start + sized);
            if num_files > 2 {
                lines.push(self.size_line());
                assert(texts(lines@) == start + sized.push(size_range_line(self.rows())));
            }
            let ghost ranged = if self.rows().len() > 2 {
                sized.push(size_range_line(self.rows()))
            } else {
                sized
            };
            assert(texts(lines@) == start + ranged);
            lines.push(self.depth_line());
            assert(texts(lines@) == start + ranged.push(depth_line(self@)));
        }
    }

    /// The report of the scan as lines of plain text.
    pub fn render(&self, details: &DetailLevel, now: i64) -> (lines: Vec<String>)
        ensures
            texts(lines@) == report_lines(self@, *details, now),
    {
        let mut lines: Vec<String> = Vec::new();
        self.push_set_lines(&mut lines, details, now);
        self.push_group_lines(&mut lines, details);
        self.push_overview_lines(&mut lines, now);
        assert(texts(lines@) == Seq::<Seq<char>>::empty() + set_lines(
            self@,
            *details,
            now,
            self@.sets.len(),
        ) + group_lines(self.rows(), *details) + overview_lines(self@, now));
        lines
    }
}

/// A size after the word `prefix`; nothing for the size 0.
pub open spec fn size_bound_text(size: u64, prefix: Seq<char>) -> Seq<char> {
    if size > 0 {
        prefix + seq![' '] + size_text(size)
    } else {
        Seq::empty()
    }
}

/// The line of the summary on the sizes: both bounds, or `[all]`
/// where none counts.
pub open spec fn sizes_line(sizes: (u64, u64)) -> Seq<char> {
    label("size range"@) + if sizes.0 > 0 || sizes.1 > sizes.0 {
        size_bound_text(sizes.0, "min."@) + seq![' '] + size_bound_text(sizes.1, "max."@)
    } else {
        "[all]"@
    }
}

/// The line of the summary on the extensions that are taken in, or
/// `[all]` where none is named.
pub open spec fn extensions_line(wanted: Seq<Seq<char>>) -> Seq<char> {
    label("extensions"@) + if wanted.len() > 0 {
        join_with(wanted, seq![',', ' '])
    } else {
        "[all]"@
    }
}

/// The line of the summary on the patterns; there is none where no
/// pattern is set.
pub open spec fn names_line(pattern: Option<Seq<char>>, exclude: Option<Seq<char>>) -> Option<
    Seq<char>,
> {
    match (pattern, exclude) {
        (Some(p), Some(e)) => Some(
            label("file names"@) + "matching "@ + short_pattern(p) + " and "@ + "not matching "@
                + e,
        ),
        (Some(p), None) => Some(label("file names"@) + "matching "@ + short_pattern(p)),
        (None, Some(e)) => Some(label("file names"@) + "not matching "@ + e),
        (None, None) => None,
    }
}

/// The summary of the criteria: a heading, the range of ages, the
/// range of sizes, the extensions, the patterns where there are any,
/// and the action.
pub open spec fn summary_lines(c: Criteria) -> Seq<Seq<char>> {
    let head = seq![
        "CRITERIA"@,
        age_range_text(c.min_age, c.max_age),
        sizes_line(c.sizes),
        extensions_line(texts(c.include_extensions@)),
    ];
    let named = match names_line(
        crate::criteria::opt_text(c.pattern),
        crate::criteria::opt_text(c.exclude_pattern),
    ) {
        Some(line) => head.push(line),
        None => head,
    };
    named.push("action "@ + pad_end(c.text(), 12))
}

impl Criteria {
    /// The line of the summary on the sizes.
    fn sizes_line(&self) -> (r: String)
        ensures
            r@ == sizes_line(self.sizes),
    {
        let mut acc: Vec<char> = Vec::new();
        push_label(&mut acc, "size range");
        if self.has_size_limits() {
            append_str(&mut acc, size_display(self.min_size(), "min.").as_str());
            acc.push(' ');
            append_str(&mut acc, size_display(self.max_size(), "max.").as_str());
        } else {
            append_str(&mut acc, "[all]");
        }
        assert(acc@ == sizes_line(self.sizes));
        text_of(&acc)
    }

    /// The line of the summary on the extensions.
    fn extensions_line(&self) -> (r: String)
        ensures
            r@ == extensions_line(texts(self.include_extensions@)),
    {
        let mut acc: Vec<char> = Vec::new();
        push_label(&mut acc, "extensions");
        if self.include_extensions.len() > 0 {
            proof {
                reveal_strlit(", ");
                assert(", "@ == seq![',', ' ']);
            }
            append_str(&mut acc, join_texts(&self.include_extensions, ", ").as_str());
        } else {
            append_str(&mut acc, "[all]");
        }
        text_of(&acc)
    }

    /// The line of the summary on the patterns.
    fn names_line(&self) -> (r: Option<String>)
        ensures
            crate::criteria::opt_text(r) == names_line(
                crate::criteria::opt_text(self.pattern),
                crate::criteria::opt_text(self.exclude_pattern),
            ),
    {
        if self.pattern.is_none() && self.exclude_pattern.is_none() {
            return None;
        }
        let mut acc: Vec<char> = Vec::new();
        push_label(&mut acc, "file names");
        match &self.pattern {
            Some(p) => {
                append_str(&mut acc, "matching ");
                append_str(&mut acc, to_short_pattern(p.as_str()).as_str());
                if self.exclude_pattern.is_some() {
                    append_str(&mut acc, " and ");
                }
            },
            None => {},
        }
        match &self.exclude_pattern {
            Some(e) => {
                append_str(&mut acc, "not matching ");
                append_str(&mut acc, e.as_str());
            },
            None => {},
        }
        Some(text_of(&acc))
    }

    /// The summary of the criteria as lines of plain text.
    pub fn summary(&self) -> (lines: Vec<String>)
        ensures
            texts(lines@) == summary_lines(*self),
    {
        let mut lines: Vec<String> = Vec::new();
        lines.push("CRITERIA".to_owned());
        lines.push(days_age_display(self.min_age, self.max_age));
        lines.push(self.sizes_line());
        lines.push(self.extensions_line());
        let ghost head = seq![
            "CRITERIA"@,
            age_range_text(self.min_age, self.max_age),
            sizes_line(self.sizes),
            extensions_line(texts(self.include_extensions@)),
        ];
        assert(texts(lines@) == head);
        match self.names_line() {
            Some(line) => {
                lines.push(line);
            },
            None => {},
        }
        let ghost named = texts(lines@);
        let mut action: Vec<char> = chars_of("action ");
        push_padded_end(&mut action, self.to_text().as_str(), 12);
        lines.push(text_of(&action));
        assert(texts(lines@) == named.push("action "@ + pad_end(self.text(), 12)));
        lines
    }
}

} // verus!
