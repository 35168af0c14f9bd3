//! The file picker for `<input type="file">`.
//!
//! The picker is the `zenity` program. This module decides what it is asked and
//! what its answer means; whoever handles the dialog runs it.

use vstd::prelude::*;
use vstd::string::*;

use crate::text::{lines_of, split_text, trim};

verus! {

/// What a page asks for.
#[derive(Clone, Copy, Debug, PartialEq, Eq, Structural)]
pub enum FileDialogMode {
    Open,
    OpenMultiple,
    OpenFolder,
    Save,
}

/// A kind of file that is accepted: what it is called, and the extensions of
/// its names.
#[derive(Debug)]
pub struct FileFilter {
    pub description: String,
    pub extensions: Vec<String>,
}

/// A kind of file that is accepted, with texts for strings.
pub struct FilterView {
    pub description: Seq<char>,
    pub extensions: Seq<Seq<char>>,
}

impl View for FileFilter {
    type V = FilterView;

    open spec fn view(&self) -> FilterView {
        FilterView {
            description: self.description@,
            extensions: crate::text::texts(self.extensions@),
        }
    }
}

/// Kinds of files as texts.
pub open spec fn filter_views(filters: Seq<FileFilter>) -> Seq<FilterView> {
    filters.map_values(|f: FileFilter| f@)
}

/// The texts of a list that are not empty, each without the white space around
/// it.
pub open spec fn trimmed_pieces(pieces: Seq<Seq<char>>) -> Seq<Seq<char>>
    decreases pieces.len(),
{
    if pieces.len() == 0 {
        Seq::empty()
    } else {
        let before = trimmed_pieces(pieces.drop_last());
        let piece = crate::text::trimmed(pieces.last());
        if piece.len() == 0 {
            before
        } else {
            before.push(piece)
        }
    }
}

/// The extensions in a list that is separated by semicolons.
pub open spec fn listed_extensions(list: Seq<char>) -> Seq<Seq<char>> {
    trimmed_pieces(crate::text::split_on(list, ';'))
}

/// The text at a position of a list, the empty one past its end.
pub open spec fn text_at(list: Seq<Seq<char>>, i: int) -> Seq<char> {
    if i < list.len() {
        list[i]
    } else {
        Seq::empty()
    }
}

/// The kinds of files that lists of extensions and descriptions name. One
/// without an extension is left out.
pub open spec fn named_filters(
    extensions: Seq<Seq<char>>,
    descriptions: Seq<Seq<char>>,
) -> Seq<FilterView>
    decreases extensions.len(),
{
    if extensions.len() == 0 {
        Seq::empty()
    } else {
        let before = named_filters(extensions.drop_last(), descriptions);
        let listed = listed_extensions(extensions.last());
        if listed.len() == 0 {
            before
        } else {
            before.push(
                FilterView {
                    description: text_at(descriptions, extensions.len() - 1),
                    extensions: listed,
                },
            )
        }
    }
}

/// The entries of a list that could be read and are not empty.
pub open spec fn read_entries(entries: Seq<Option<String>>) -> Seq<Seq<char>>
    decreases entries.len(),
{
    if entries.len() == 0 {
        Seq::empty()
    } else {
        let before = read_entries(entries.drop_last());
        match entries.last() {
            Some(entry) => if entry@.len() == 0 {
                before
            } else {
                before.push(entry@)
            },
            None => before,
        }
    }
}

/// The entries of a list that could be read and are not empty.
pub fn usable_entries(entries: &Vec<Option<String>>) -> (usable: Vec<String>)
    ensures
        crate::text::texts(usable@) == read_entries(entries@),
{
    let mut usable: Vec<String> = Vec::new();
    let mut i: usize = 0;
    assert(entries@.take(0) =~= Seq::empty());
    assert(crate::text::texts(usable@) =~= Seq::empty());
    while i < entries.len()
        invariant
            i <= entries@.len(),
            crate::text::texts(usable@) == read_entries(entries@.take(i as int)),
        decreases entries@.len() - i,
    {
        assert(entries@.take(i as int + 1).drop_last() =~= entries@.take(i as int));
        match &entries[i] {
            Some(entry) => {
                if !entry.as_str().is_empty() {
                    let ghost done = usable@;
                    usable.push(entry.clone());
                    assert(crate::text::texts(usable@) =~= crate::text::texts(done).push(entry@));
                }
            },
            None => {},
        }
        i = i + 1;
    }
    assert(entries@.take(entries@.len() as int) =~= entries@);
    usable
}

fn extensions_in(list: &str) -> (extensions: Vec<String>)
    ensures
        crate::text::texts(extensions@) == listed_extensions(list@),
{
    let pieces: Vec<String> = split_text(list, ';');
    let ghost all = crate::text::split_on(list@, ';');
    let mut extensions: Vec<String> = Vec::new();
    let mut i: usize = 0;
    assert(all.take(0) =~= Seq::empty());
    assert(crate::text::texts(extensions@) =~= Seq::empty());
    assert(all.len() == pieces@.len());
    while i < pieces.len()
        invariant
            i <= pieces@.len(),
            all == crate::text::texts(pieces@),
            all.len() == pieces@.len(),
            crate::text::texts(extensions@) == trimmed_pieces(all.take(i as int)),
        decreases pieces@.len() - i,
    {
        assert(all.take(i as int + 1).drop_last() =~= all.take(i as int));
        assert(all.take(i as int + 1).last() == pieces@[i as int]@);
        let piece: &str = trim(pieces[i].as_str());
        if !piece.is_empty() {
            let ghost done = extensions@;
            extensions.push(piece.to_owned());
            assert(crate::text::texts(extensions@) =~= crate::text::texts(done).push(piece@));
        }
        i = i + 1;
    }
    assert(all.take(all.len() as int) =~= all);
    extensions
}

/// The kinds of files that lists of extensions and descriptions name.
pub fn dialog_filters(extensions: &Vec<String>, descriptions: &Vec<String>) -> (filters: Vec<
    FileFilter,
>)
    ensures
        filter_views(filters@) == named_filters(
            crate::text::texts(extensions@),
            crate::text::texts(descriptions@),
        ),
{
    let mut filters: Vec<FileFilter> = Vec::new();
    let ghost exts = crate::text::texts(extensions@);
    let ghost descs = crate::text::texts(descriptions@);
    let mut i: usize = 0;
    assert(exts.take(0) =~= Seq::empty());
    assert(filter_views(filters@) =~= Seq::empty());
    while i < extensions.len()
        invariant
            i <= extensions@.len(),
            exts == crate::text::texts(extensions@),
            descs == crate::text::texts(descriptions@),
            filter_views(filters@) == named_filters(exts.take(i as int), descs),
        decreases extensions@.len() - i,
    {
        assert(exts.take(i as int + 1).drop_last() =~= exts.take(i as int));
        assert(exts.take(i as int + 1).last() == extensions@[i as int]@);
        let listed: Vec<String> = extensions_in(extensions[i].as_str());
        assert(crate::text::texts(listed@).len() == listed@.len());
        if listed.len() > 0 {
            let description: String = if i < descriptions.len() {
                descriptions[i].clone()
            } else {
                String::new()
            };
            assert(description@ == text_at(descs, i as int));
            let ghost done = filters@;
            let filter = FileFilter { description, extensions: listed };
            let ghost added = filter;
            filters.push(filter);
            assert(filter_views(filters@) =~= filter_views(done).push(added@));
        }
        i = i + 1;
    }
    assert(exts.take(exts.len() as int) =~= exts);
    filters
}

/// The pattern for the names with an extension. A dot that starts the
/// extension is not repeated.
pub open spec fn extension_pattern(extension: Seq<char>) -> Seq<char> {
    "*."@ + (if extension.len() > 0 && extension.first() == '.' {
        extension.drop_first()
    } else {
        extension
    })
}

/// The patterns for names with one of some extensions, with spaces between.
pub open spec fn extension_patterns(extensions: Seq<Seq<char>>) -> Seq<char>
    decreases extensions.len(),
{
    if extensions.len() == 0 {
        Seq::empty()
    } else if extensions.len() == 1 {
        extension_pattern(extensions[0])
    } else {
        extension_patterns(extensions.drop_last()) + " "@ + extension_pattern(extensions.last())
    }
}

/// The argument that offers a kind of file.
pub open spec fn filter_argument(filter: FilterView) -> Seq<char> {
    "--file-filter="@ + (if filter.description.len() == 0 {
        "Accepted"@
    } else {
        filter.description
    }) + " | "@ + extension_patterns(filter.extensions)
}

/// The arguments that offer kinds of files. One without an extension is not
/// offered.
pub open spec fn filter_arguments(filters: Seq<FilterView>) -> Seq<Seq<char>>
    decreases filters.len(),
{
    if filters.len() == 0 {
        Seq::empty()
    } else {
        let before = filter_arguments(filters.drop_last());
        if filters.last().extensions.len() == 0 {
            before
        } else {
            before.push(filter_argument(filters.last()))
        }
    }
}

/// What the picker is asked for in a mode.
pub open spec fn mode_arguments(mode: FileDialogMode) -> Seq<Seq<char>> {
    match mode {
        FileDialogMode::Open => Seq::empty(),
        FileDialogMode::Save => seq!["--save"@, "--confirm-overwrite"@],
        FileDialogMode::OpenFolder => seq!["--directory"@],
        FileDialogMode::OpenMultiple => seq!["--multiple"@, "--separator=\n"@],
    }
}

/// An option with a text as its value, left out where the text is empty.
pub open spec fn option_argument(option: Seq<char>, value: Seq<char>) -> Seq<Seq<char>> {
    if value.len() == 0 {
        Seq::empty()
    } else {
        seq![option + value]
    }
}

/// The arguments of the picker. Where kinds of files are offered, all files are
/// offered last.
pub open spec fn picker_arguments(
    mode: FileDialogMode,
    title: Seq<char>,
    default_path: Seq<char>,
    filters: Seq<FilterView>,
) -> Seq<Seq<char>> {
    seq!["--file-selection"@] + mode_arguments(mode) + option_argument("--title="@, title)
        + option_argument("--filename="@, default_path) + filter_arguments(filters) + (if filters.len()
        == 0 {
        Seq::empty()
    } else {
        seq!["--file-filter=All files | *"@]
    })
}

fn pattern_of(extension: &str) -> (pattern: String)
    ensures
        pattern@ == extension_pattern(extension@),
{
    let mut pattern: String = "*.".to_owned();
    let n: usize = extension.unicode_len();
    if n > 0 && extension.get_char(0) == '.' {
        let rest: &str = extension.substring_char(1, n);
        assert(rest@ =~= extension@.drop_first());
        pattern.append(rest);
    } else {
        pattern.append(extension);
    }
    pattern
}

fn patterns_of(extensions: &Vec<String>) -> (patterns: String)
    ensures
        patterns@ == extension_patterns(crate::text::texts(extensions@)),
{
    let mut patterns: String = String::new();
    let ghost all = crate::text::texts(extensions@);
    let mut i: usize = 0;
    assert(all.take(0) =~= Seq::empty());
    while i < extensions.len()
        invariant
            i <= extensions@.len(),
            all == crate::text::texts(extensions@),
            patterns@ == extension_patterns(all.take(i as int)),
        decreases extensions@.len() - i,
    {
        assert(all.take(i as int + 1).drop_last() =~= all.take(i as int));
        assert(all.take(i as int + 1).last() == extensions@[i as int]@);
        let pattern: String = pattern_of(extensions[i].as_str());
        if i > 0 {
            patterns.append(" ");
        }
        patterns.append(pattern.as_str());
        assert(i == 0 ==> patterns@ =~= pattern@);
        i = i + 1;
    }
    assert(all.take(all.len() as int) =~= all);
    patterns
}

fn offer(filter: &FileFilter) -> (argument: String)
    ensures
        argument@ == filter_argument(filter@),
{
    let mut argument: String = "--file-filter=".to_owned();
    if filter.description.as_str().is_empty() {
        argument.append("Accepted");
    } else {
        argument.append(filter.description.as_str());
    }
    argument.append(" | ");
    argument.append(patterns_of(&filter.extensions).as_str());
    argument
}

fn option_with(option: &str, value: &str) -> (argument: String)
    ensures
        argument@ == option@ + value@,
{
    let mut argument: String = option.to_owned();
    argument.append(value);
    argument
}

fn push_text(list: &mut Vec<String>, text: String)
    ensures
        crate::text::texts(final(list)@) == crate::text::texts(old(list)@).push(text@),
{
    let ghost before = list@;
    list.push(text);
    assert(crate::text::texts(list@) =~= crate::text::texts(before).push(text@));
}

/// The arguments of the picker.
pub fn zenity_arguments(
    mode: FileDialogMode,
    title: &str,
    default_path: &str,
    filters: &Vec<FileFilter>,
) -> (arguments: Vec<String>)
    ensures
        crate::text::texts(arguments@) == picker_arguments(
            mode,
            title@,
            default_path@,
            filter_views(filters@),
        ),
{
    let mut arguments: Vec<String> = Vec::new();
    push_text(&mut arguments, "--file-selection".to_owned());
    match mode {
        FileDialogMode::Open => {},
        FileDialogMode::Save => {
            push_text(&mut arguments, "--save".to_owned());
            push_text(&mut arguments, "--confirm-overwrite".to_owned());
        },
        FileDialogMode::OpenFolder => {
            push_text(&mut arguments, "--directory".to_owned());
        },
        FileDialogMode::OpenMultiple => {
            push_text(&mut arguments, "--multiple".to_owned());
            push_text(&mut arguments, "--separator=\n".to_owned());
        },
    }
    if !title.is_empty() {
        push_text(&mut arguments, option_with("--title=", title));
    }
    if !default_path.is_empty() {
        push_text(&mut arguments, option_with("--filename=", default_path));
    }
    let ghost start = crate::text::texts(arguments@);
    let ghost all = filter_views(filters@);
    assert(start =~= seq!["--file-selection"@] + mode_arguments(mode) + option_argument(
        "--title="@,
        title@,
    ) + option_argument("--filename="@, default_path@));
    let mut i: usize = 0;
    assert(all.take(0) =~= Seq::empty());
    assert(start + filter_arguments(all.take(0)) =~= start);
    while i < filters.len()
        invariant
            i <= filters@.len(),
            all == filter_views(filters@),
            crate::text::texts(arguments@) == start + filter_arguments(all.take(i as int)),
        decreases filters@.len() - i,
    {
        assert(all.take(i as int + 1).drop_last() =~= all.take(i as int));
        assert(all.take(i as int + 1).last() == filters@[i as int]@);
        let filter = &filters[i];
        assert(crate::text::texts(filter.extensions@).len() == filter.extensions@.len());
        if filter.extensions.len() > 0 {
            let ghost before = crate::text::texts(arguments@);
            push_text(&mut arguments, offer(filter));
            assert(crate::text::texts(arguments@) =~= start + filter_arguments(
                all.take(i as int + 1),
            ));
        }
        i = i + 1;
    }
    assert(all.take(all.len() as int) =~= all);
    if filters.len() > 0 {
        push_text(&mut arguments, "--file-filter=All files | *".to_owned());
    }
    assert(crate::text::texts(arguments@) =~= picker_arguments(
        mode,
        title@,
        default_path@,
        all,
    ));
    arguments
}

/// The paths that were picked: the lines the picker wrote, if it succeeded and
/// wrote any.
pub open spec fn picked(success: bool, output: Seq<char>) -> Option<Seq<Seq<char>>> {
    let lines = crate::text::nonempty_lines(output);
    if success && lines.len() > 0 {
        Some(lines)
    } else {
        None
    }
}

/// The paths that were picked, given whether the picker succeeded and what it
/// wrote. Without one the dialog counts as cancelled.
pub fn picked_paths(success: bool, output: &str) -> (paths: Option<Vec<String>>)
    ensures
        match paths {
            Some(paths) => picked(success, output@) == Some(crate::text::texts(paths@)),
            None => picked(success, output@) is None,
        },
{
    if !success {
        return None;
    }
    let paths: Vec<String> = lines_of(output);
    assert(crate::text::texts(paths@).len() == paths@.len());
    if paths.len() == 0 {
        None
    } else {
        Some(paths)
    }
}

/// Whatever is asked for, all files can be picked where kinds of files are
/// offered, and each kind with an extension is offered.
pub proof fn law_all_files_are_offered_last(
    mode: FileDialogMode,
    title: Seq<char>,
    default_path: Seq<char>,
    filters: Seq<FilterView>,
)
    requires
        filters.len() > 0,
    ensures
        picker_arguments(mode, title, default_path, filters).last()
            == "--file-filter=All files | *"@,
        picker_arguments(mode, title, default_path, filters).first() == "--file-selection"@,
{
}

/// Whether a text is not empty and has no white space around it.
pub open spec fn is_tight(text: Seq<char>) -> bool {
    text.len() > 0 && !crate::text::is_white(text.first()) && !crate::text::is_white(text.last())
}

/// Whether a kind of file has an extension, and all its extensions are texts
/// without white space around them.
pub open spec fn is_well_named(filter: FilterView) -> bool {
    &&& filter.extensions.len() > 0
    &&& forall|j: int|
        0 <= j < filter.extensions.len() ==> is_tight(#[trigger] filter.extensions[j])
}

/// Every kind of file that lists of extensions and descriptions name has an
/// extension, and none of its extensions is empty or has white space around it.
pub proof fn law_named_filters_have_extensions(
    extensions: Seq<Seq<char>>,
    descriptions: Seq<Seq<char>>,
)
    ensures
        forall|i: int|
            0 <= i < named_filters(extensions, descriptions).len() ==> is_well_named(
                #[trigger] named_filters(extensions, descriptions)[i],
            ),
    decreases extensions.len(),
{
    if extensions.len() > 0 {
        let start = named_filters(extensions.drop_last(), descriptions);
        let all = named_filters(extensions, descriptions);
        law_named_filters_have_extensions(extensions.drop_last(), descriptions);
        lemma_pieces_are_tight(crate::text::split_on(extensions.last(), ';'));
        assert forall|i: int| 0 <= i < all.len() implies is_well_named(#[trigger] all[i]) by {
            if i < start.len() {
                assert(all[i] == start[i]);
            }
        }
    }
}

proof fn lemma_pieces_are_tight(pieces: Seq<Seq<char>>)
    ensures
        forall|j: int|
            0 <= j < trimmed_pieces(pieces).len() ==> is_tight(#[trigger] trimmed_pieces(pieces)[j]),
    decreases pieces.len(),
{
    if pieces.len() > 0 {
        let start = trimmed_pieces(pieces.drop_last());
        let all = trimmed_pieces(pieces);
        lemma_pieces_are_tight(pieces.drop_last());
        crate::text::law_trimmed_has_no_white_ends(pieces.last());
        assert forall|j: int| 0 <= j < all.len() implies is_tight(#[trigger] all[j]) by {
            if j < start.len() {
                assert(all[j] == start[j]);
            }
        }
    }
}

/// The pattern for an extension is a star, a dot and the extension, whether or
/// not the extension is written with its dot.
pub proof fn law_pattern_has_one_dot(extension: Seq<char>)
    requires
        extension.len() > 0 ==> extension[0] != '.',
    ensures
        extension_pattern(extension) == seq!['*', '.'] + extension,
        extension_pattern(seq!['.'] + extension) == seq!['*', '.'] + extension,
{
    reveal_strlit("*.");
    assert("*."@ =~= seq!['*', '.']);
    assert((seq!['.'] + extension).drop_first() =~= extension);
}

/// The patterns of some extensions stand in their order with one space between.
pub proof fn law_patterns_stand_side_by_side(extensions: Seq<Seq<char>>, extension: Seq<char>)
    ensures
        extension_patterns(Seq::empty()).len() == 0,
        extension_patterns(seq![extension]) == extension_pattern(extension),
        extensions.len() > 0 ==> extension_patterns(extensions.push(extension))
            == extension_patterns(extensions).push(' ') + extension_pattern(extension),
{
    reveal_strlit(" ");
    assert(extensions.push(extension).drop_last() =~= extensions);
    if extensions.len() > 0 {
        assert(extension_patterns(extensions.push(extension)) =~= extension_patterns(
            extensions,
        ).push(' ') + extension_pattern(extension));
    }
}

/// A kind of file is offered by its description, or as accepted where it has
/// none, and by the patterns of its extensions; kinds are offered in their
/// order, those without an extension not at all.
pub proof fn law_kinds_are_offered_in_order(filters: Seq<FilterView>, filter: FilterView)
    ensures
        filter.description.len() > 0 ==> filter_argument(filter) == "--file-filter="@
            + filter.description + " | "@ + extension_patterns(filter.extensions),
        filter.description.len() == 0 ==> filter_argument(filter) == "--file-filter="@
            + "Accepted"@ + " | "@ + extension_patterns(filter.extensions),
        filter_arguments(Seq::empty()).len() == 0,
        filter.extensions.len() > 0 ==> filter_arguments(filters.push(filter)) == filter_arguments(
            filters,
        ).push(filter_argument(filter)),
        filter.extensions.len() == 0 ==> filter_arguments(filters.push(filter))
            == filter_arguments(filters),
{
    assert(filters.push(filter).drop_last() =~= filters);
}

/// The picker picks a file; asked for several, for a folder or for a place to
/// save to it is told so, and asks before it overwrites. The title and the path
/// it starts at come next, where there are any, and the kinds of files last.
pub proof fn law_picker_is_asked_for_mode(
    mode: FileDialogMode,
    title: Seq<char>,
    default_path: Seq<char>,
    filters: Seq<FilterView>,
)
    ensures
        ({
            let arguments = picker_arguments(mode, title, default_path, filters);
            let modes: Seq<Seq<char>> = match mode {
                FileDialogMode::Open => seq![],
                FileDialogMode::OpenMultiple => seq!["--multiple"@, "--separator=\n"@],
                FileDialogMode::OpenFolder => seq!["--directory"@],
                FileDialogMode::Save => seq!["--save"@, "--confirm-overwrite"@],
            };
            let titles: Seq<Seq<char>> = if title.len() > 0 {
                seq!["--title="@ + title]
            } else {
                seq![]
            };
            let paths: Seq<Seq<char>> = if default_path.len() > 0 {
                seq!["--filename="@ + default_path]
            } else {
                seq![]
            };
            let kinds: Seq<Seq<char>> = if filters.len() > 0 {
                filter_arguments(filters).push("--file-filter=All files | *"@)
            } else {
                seq![]
            };
            arguments == seq!["--file-selection"@] + modes + titles + paths + kinds
        }),
{
    let arguments = picker_arguments(mode, title, default_path, filters);
    let kinds: Seq<Seq<char>> = if filters.len() > 0 {
        filter_arguments(filters).push("--file-filter=All files | *"@)
    } else {
        seq![]
    };
    assert(arguments =~= seq!["--file-selection"@] + mode_arguments(mode) + option_argument(
        "--title="@,
        title,
    ) + option_argument("--filename="@, default_path) + kinds);
    assert(mode == FileDialogMode::Open ==> mode_arguments(mode) =~= seq![]);
}

/// Each list of extensions names one kind of file, in order, with the
/// description at the same position or none; a list without an extension names
/// none.
pub proof fn law_each_list_names_a_kind(
    extensions: Seq<Seq<char>>,
    list: Seq<char>,
    descriptions: Seq<Seq<char>>,
)
    ensures
        ({
            let before = named_filters(extensions, descriptions);
            let all = named_filters(extensions.push(list), descriptions);
            let listed = listed_extensions(list);
            &&& listed.len() == 0 ==> all == before
            &&& listed.len() > 0 ==> {
                &&& all.len() == before.len() + 1
                &&& all.drop_last() == before
                &&& all.last().extensions == listed
                &&& extensions.len() < descriptions.len() ==> all.last().description
                    == descriptions[extensions.len() as int]
                &&& extensions.len() >= descriptions.len() ==> all.last().description.len() == 0
            }
        }),
        named_filters(Seq::empty(), descriptions).len() == 0,
{
    assert(extensions.push(list).drop_last() =~= extensions);
    let before = named_filters(extensions, descriptions);
    let all = named_filters(extensions.push(list), descriptions);
    if listed_extensions(list).len() > 0 {
        assert(all.drop_last() =~= before);
    }
}

/// Every piece between semicolons that is more than white space is an
/// extension, without the white space around it, in order.
pub proof fn law_pieces_are_extensions(pieces: Seq<Seq<char>>, piece: Seq<char>, list: Seq<char>)
    ensures
        crate::text::trimmed(piece).len() > 0 ==> trimmed_pieces(pieces.push(piece))
            == trimmed_pieces(pieces).push(crate::text::trimmed(piece)),
        crate::text::trimmed(piece).len() == 0 ==> trimmed_pieces(pieces.push(piece))
            == trimmed_pieces(pieces),
        trimmed_pieces(Seq::empty()).len() == 0,
        !list.contains(';') && is_tight(list) && crate::text::trimmed(list) == list
            ==> listed_extensions(list) == seq![list],
{
    assert(pieces.push(piece).drop_last() =~= pieces);
    if !list.contains(';') {
        crate::text::lemma_split_whole(list, ';');
        let parts = crate::text::split_on(list, ';');
        reveal_with_fuel(trimmed_pieces, 2);
        assert(parts.drop_last() =~= Seq::empty());
    }
}

/// The entries that could be read and hold anything are used, in order.
pub proof fn law_readable_entries_are_used(entries: Seq<Option<String>>, entry: String)
    ensures
        read_entries(Seq::empty()).len() == 0,
        read_entries(entries.push(None)) == read_entries(entries),
        entry@.len() == 0 ==> read_entries(entries.push(Some(entry))) == read_entries(entries),
        entry@.len() > 0 ==> read_entries(entries.push(Some(entry))) == read_entries(entries).push(
            entry@,
        ),
{
    assert(entries.push(None).drop_last() =~= entries);
    assert(entries.push(Some(entry)).drop_last() =~= entries);
}

/// The lines a picker wrote are picked if it succeeded and there are any;
/// otherwise nothing is.
pub proof fn law_picked_are_the_lines(output: Seq<char>)
    ensures
        picked(false, output) is None,
        crate::text::nonempty_lines(output).len() > 0 ==> picked(true, output) == Some(
            crate::text::nonempty_lines(output),
        ),
        crate::text::nonempty_lines(output).len() == 0 ==> picked(true, output) is None,
{
}

/// Kinds of files are seen by the texts they hold, in their order.
pub proof fn law_kinds_are_seen_as_they_are(filters: Seq<FileFilter>, k: int)
    ensures
        filter_views(filters).len() == filters.len(),
        0 <= k < filters.len() ==> filter_views(filters)[k].description == filters[k].description@
            && filter_views(filters)[k].extensions == crate::text::texts(filters[k].extensions@),
{
}

} // verus!
