//! Reading a mesh from the bytes of an MSH file.

use super::components::edges_in_range;
use super::mesh::MeshTopology;
use crate::scalar::Scalar;
use vstd::prelude::*;

verus! {

/// The number of the MSH format for a point.
pub const POINT_KIND: i32 = 15;

/// The number of the MSH format for a line of two nodes.
pub const LINE_KIND: i32 = 1;

/// The number of the MSH format for a triangle of three nodes.
pub const TRIANGLE_KIND: i32 = 2;

/// The number of the MSH format for a tetrahedron of four nodes.
pub const TETRAHEDRON_KIND: i32 = 4;

/// The largest size of a count that the format line of a file can name.
pub const LARGEST_SIZE: u64 = 0x7FFF_FFFF;

/// A block of elements of one kind, each with the tags of its nodes.
#[derive(Debug)]
pub struct MshBlock {
    pub kind: i32,
    pub elements: Vec<Vec<u64>>,
}

/// The sections of an MSH file: whether it describes a geometry, how many nodes each block of nodes
/// holds, and the blocks of elements. Each section may be missing.
#[derive(Debug)]
pub struct MshContents {
    pub has_entities: bool,
    pub node_counts: Option<Vec<usize>>,
    pub blocks: Option<Vec<MshBlock>>,
}

/// A mesh as it stands in a file: the coordinates of its vertices, its edges and its cells.
#[derive(Debug)]
pub struct ReadMesh {
    pub points: Vec<Vec<Scalar>>,
    pub edges: Vec<(usize, usize)>,
    pub cells: Vec<Vec<usize>>,
}

/// What the sections of an MSH file hold.
pub struct MshSections {
    pub has_entities: bool,
    pub node_counts: Option<Seq<usize>>,
    pub blocks: Option<Seq<(i32, Seq<Seq<u64>>)>>,
}

/// The tags of the nodes, element by element.
pub open spec fn tag_lists(elements: Seq<Vec<u64>>) -> Seq<Seq<u64>> {
    elements.map_values(|element: Vec<u64>| element@)
}

/// The kind and the tags of a block.
pub open spec fn block_view(block: MshBlock) -> (i32, Seq<Seq<u64>>) {
    (block.kind, tag_lists(block.elements@))
}

/// The kinds and the tags of blocks.
pub open spec fn block_views(blocks: Seq<MshBlock>) -> Seq<(i32, Seq<Seq<u64>>)> {
    blocks.map_values(|block: MshBlock| block_view(block))
}

impl View for MshContents {
    type V = MshSections;

    open spec fn view(&self) -> MshSections {
        MshSections {
            has_entities: self.has_entities,
            node_counts: match self.node_counts {
                Some(counts) => Some(counts@),
                None => None,
            },
            blocks: match self.blocks {
                Some(blocks) => Some(block_views(blocks@)),
                None => None,
            },
        }
    }
}

/// The bits of the coordinates of points.
pub open spec fn point_bits(points: Seq<Vec<Scalar>>) -> Seq<Seq<u64>> {
    points.map_values(|point: Vec<Scalar>| point@.map_values(|value: Scalar| value.bits))
}

/// The corners of cells.
pub open spec fn corner_lists(cells: Seq<Vec<usize>>) -> Seq<Seq<usize>> {
    cells.map_values(|cell: Vec<usize>| cell@)
}

// The lines of a file.

/// Whether `text` stands at place `at`.
pub open spec fn has_text(bytes: Seq<u8>, at: int, text: Seq<u8>) -> bool {
    at + text.len() <= bytes.len() && forall|i: int|
        0 <= i < text.len() ==> #[trigger] text[i] == bytes[at + i]
}

/// How many bytes the line break at place `at` takes; none where there is no line break.
pub open spec fn break_width(bytes: Seq<u8>, at: int) -> int {
    if at < bytes.len() && bytes[at] == 0x0A {
        1
    } else if at + 1 < bytes.len() && bytes[at] == 0x0D && bytes[at + 1] == 0x0A {
        2
    } else {
        0
    }
}

/// How many bytes the separator at place `at` takes: a space, a tab or a line break.
pub open spec fn gap_width(bytes: Seq<u8>, at: int) -> int {
    if at < bytes.len() && (bytes[at] == 0x20 || bytes[at] == 0x09) {
        1
    } else {
        break_width(bytes, at)
    }
}

/// `$MeshFormat`.
pub open spec fn format_tag() -> Seq<u8> {
    seq![0x24, 0x4D, 0x65, 0x73, 0x68, 0x46, 0x6F, 0x72, 0x6D, 0x61, 0x74]
}

/// `$Entities`.
pub open spec fn entities_tag() -> Seq<u8> {
    seq![0x24, 0x45, 0x6E, 0x74, 0x69, 0x74, 0x69, 0x65, 0x73]
}

/// `$Nodes`.
pub open spec fn nodes_tag() -> Seq<u8> {
    seq![0x24, 0x4E, 0x6F, 0x64, 0x65, 0x73]
}

/// `$Elements`.
pub open spec fn elements_tag() -> Seq<u8> {
    seq![0x24, 0x45, 0x6C, 0x65, 0x6D, 0x65, 0x6E, 0x74, 0x73]
}

/// Whether a byte is white space.
pub open spec fn is_space(byte: u8) -> bool {
    byte == 0x20 || byte == 0x09 || byte == 0x0D || byte == 0x0A
}

/// Whether a byte is a decimal digit.
pub open spec fn is_digit(byte: u8) -> bool {
    0x30 <= byte <= 0x39
}

/// The end of the run of bytes that are no white space at `from`.
pub open spec fn word_end(bytes: Seq<u8>, from: int) -> int
    decreases bytes.len() - from,
{
    if 0 <= from < bytes.len() && !is_space(bytes[from]) {
        word_end(bytes, from + 1)
    } else {
        from
    }
}

/// The end of the run of white space at `from`.
pub open spec fn spaces_end(bytes: Seq<u8>, from: int) -> int
    decreases bytes.len() - from,
{
    if 0 <= from < bytes.len() && is_space(bytes[from]) {
        spaces_end(bytes, from + 1)
    } else {
        from
    }
}

/// The end of the run of digits at `from`.
pub open spec fn digits_end(bytes: Seq<u8>, from: int) -> int
    decreases bytes.len() - from,
{
    if 0 <= from < bytes.len() && is_digit(bytes[from]) {
        digits_end(bytes, from + 1)
    } else {
        from
    }
}

/// The number that digits write.
pub open spec fn digits_value(bytes: Seq<u8>, from: int, end: int) -> int
    decreases end - from,
{
    if end <= from {
        0
    } else {
        10 * digits_value(bytes, from, end - 1) + (bytes[end - 1] - 0x30)
    }
}

/// The places of a format line: where its three words start, and where the last one ends.
pub struct FormatPlaces {
    pub version: int,
    pub kind: int,
    pub size: int,
    pub end: int,
}

/// Where the words of the format line stand. The first word is the version; behind single
/// separators follow the file type and the size of a count.
pub open spec fn format_places(bytes: Seq<u8>) -> FormatPlaces {
    let version = 11 + break_width(bytes, 11);
    let version_end = word_end(bytes, version);
    let kind = version_end + gap_width(bytes, version_end);
    let kind_end = digits_end(bytes, kind);
    let size = kind_end + gap_width(bytes, kind_end);
    FormatPlaces { version, kind, size, end: digits_end(bytes, size) }
}

/// Whether the file opens with a format line whose last two words are numbers.
pub open spec fn has_format(bytes: Seq<u8>) -> bool {
    let places = format_places(bytes);
    &&& has_text(bytes, 0, format_tag())
    &&& break_width(bytes, 11) > 0
    &&& gap_width(bytes, word_end(bytes, places.version)) > 0
    &&& places.kind < digits_end(bytes, places.kind)
    &&& gap_width(bytes, digits_end(bytes, places.kind)) > 0
    &&& places.size < places.end
    &&& break_width(bytes, places.end) > 0
}

/// Whether the file is binary: its file type is one.
pub open spec fn is_binary(bytes: Seq<u8>) -> bool {
    let places = format_places(bytes);
    digits_value(bytes, places.kind, digits_end(bytes, places.kind)) == 1
}

/// The size of a count that the format line names.
pub open spec fn count_size(bytes: Seq<u8>) -> int {
    let places = format_places(bytes);
    digits_value(bytes, places.size, places.end)
}

/// Whether binary counts of a size can be read.
pub open spec fn is_count_size(size: int) -> bool {
    size == 1 || size == 2 || size == 4 || size == 8 || size == 16
}

/// Whether the size of a count that the format line names is a number of the machine, and one that
/// can be read where the file is binary.
pub open spec fn size_is_known(bytes: Seq<u8>) -> bool {
    has_format(bytes) ==> count_size(bytes) <= LARGEST_SIZE && (is_binary(bytes) ==> is_count_size(
        count_size(bytes),
    ))
}

/// Where the second of two numbers starts that stand from `from` on.
pub open spec fn second_number(bytes: Seq<u8>, from: int) -> int {
    spaces_end(bytes, digits_end(bytes, spaces_end(bytes, from)))
}

/// Whether the second of the counts from `from` on is zero.
pub open spec fn second_count_is_zero(bytes: Seq<u8>, from: int) -> bool {
    if is_binary(bytes) {
        let size = count_size(bytes);
        from + 2 * size <= bytes.len() && forall|i: int|
            from + size <= i < from + 2 * size ==> #[trigger] bytes[i] == 0
    } else {
        let start = second_number(bytes, from);
        start < digits_end(bytes, start) < bytes.len() && forall|i: int|
            start <= i < digits_end(bytes, start) ==> #[trigger] bytes[i] == 0x30
    }
}

/// Whether the line that opens a section stands at place `at`.
pub open spec fn opens_section(bytes: Seq<u8>, tag: Seq<u8>, at: int) -> bool {
    has_text(bytes, at, tag) && break_width(bytes, at + tag.len()) > 0
}

/// Whether the section that opens at place `at` announces zero items in its second count.
pub open spec fn announces_nothing(bytes: Seq<u8>, tag: Seq<u8>, at: int) -> bool {
    &&& opens_section(bytes, tag, at)
    &&& has_format(bytes)
    &&& second_count_is_zero(bytes, at + tag.len() + break_width(bytes, at + tag.len()))
}

/// What `parse_msh_bytes` finds in the bytes of a file: the sections that it holds; nothing where it
/// reports an error.
pub uninterp spec fn msh_contents(bytes: Seq<u8>) -> Option<MshSections>;

/// Whether the bytes from `cut` to `at` are white space, and those before `cut` are a whole file:
/// the sections of the file have been read when `at` is reached.
pub open spec fn is_reached(bytes: Seq<u8>, cut: int, at: int) -> bool {
    &&& 0 <= cut <= at
    &&& forall|i: int| cut <= i < at ==> is_space(#[trigger] bytes[i])
    &&& msh_contents(bytes.take(cut)) is Some
}

/// Whether a section opens at `at`, where the sections before it have been read, that repeats one of
/// them or announces nothing.
pub open spec fn fails_at(bytes: Seq<u8>, cut: int, at: int) -> bool {
    &&& is_reached(bytes, cut, at)
    &&& ({
        let before = msh_contents(bytes.take(cut))->0;
        ||| opens_section(bytes, entities_tag(), at) && before.has_entities
        ||| opens_section(bytes, nodes_tag(), at) && before.node_counts is Some
        ||| opens_section(bytes, elements_tag(), at) && before.blocks is Some
        ||| announces_nothing(bytes, nodes_tag(), at)
        ||| announces_nothing(bytes, elements_tag(), at)
    })
}

/// Whether nothing in the bytes keeps `parse_msh_bytes` from coming to an end.
pub open spec fn can_be_parsed(bytes: Seq<u8>) -> bool {
    &&& size_is_known(bytes)
    &&& forall|cut: int, at: int| at < bytes.len() ==> !#[trigger] fails_at(bytes, cut, at)
}

/// Calls `parse_msh_bytes` of the `mshio` crate, which reads the sections of an MSH file one after
/// the other, or reports an error. It can also stop without a report. It does so where the size of a
/// count on the format line does not fit into 32 bits, or is no power of two up to 16 in a binary
/// file. And with arithmetic that is checked for overflow it does so where it takes one from the
/// number of nodes or of elements that a section announces, and the number is zero. These bytes are
/// left out, and with them those that repeat a section, which it refuses. A section is read where
/// what stands before it is a whole file. What is found depends on the bytes alone.
#[verifier::external_body]
fn parsed_msh(bytes: &Vec<u8>) -> (contents: Option<MshContents>)
    requires
        can_be_parsed(bytes@),
    ensures
        contents is Some <==> msh_contents(bytes@) is Some,
        contents is Some ==> contents->0@ == msh_contents(bytes@)->0,
{
    mshio::parse_msh_bytes(bytes).ok().map(|file| MshContents {
        has_entities: file.data.entities.is_some(),
        node_counts: file.data.nodes.map(|section| {
            section.node_blocks.iter().map(|block| block.nodes.len()).collect()
        }),
        blocks: file.data.elements.map(|section| {
            section.element_blocks.into_iter().map(|block| MshBlock {
                kind: block.element_type as i32,
                elements: block.elements.into_iter().map(|element| element.nodes).collect(),
            }).collect()
        }),
    })
}

// What the beginning of a file says, the whole file says too.

proof fn lemma_prefix_runs(bytes: Seq<u8>, cut: int, from: int)
    requires
        0 <= from <= cut <= bytes.len(),
    ensures
        from <= word_end(bytes.take(cut), from) <= cut,
        from <= spaces_end(bytes.take(cut), from) <= cut,
        from <= digits_end(bytes.take(cut), from) <= cut,
        word_end(bytes.take(cut), from) < cut ==> word_end(bytes, from) == word_end(
            bytes.take(cut),
            from,
        ),
        spaces_end(bytes.take(cut), from) < cut ==> spaces_end(bytes, from) == spaces_end(
            bytes.take(cut),
            from,
        ),
        digits_end(bytes.take(cut), from) < cut ==> digits_end(bytes, from) == digits_end(
            bytes.take(cut),
            from,
        ),
    decreases cut - from,
{
    if from < cut {
        lemma_prefix_runs(bytes, cut, from + 1);
        assert(bytes.take(cut)[from] == bytes[from]);
    }
}

proof fn lemma_prefix_breaks(bytes: Seq<u8>, cut: int, at: int)
    requires
        0 <= at,
        0 <= cut <= bytes.len(),
    ensures
        break_width(bytes.take(cut), at) > 0 ==> break_width(bytes, at) == break_width(
            bytes.take(cut),
            at,
        ) && at + break_width(bytes, at) <= cut,
        gap_width(bytes.take(cut), at) > 0 ==> gap_width(bytes, at) == gap_width(
            bytes.take(cut),
            at,
        ) && at + gap_width(bytes, at) <= cut,
{
}

proof fn lemma_prefix_value(bytes: Seq<u8>, cut: int, from: int, end: int)
    requires
        0 <= from,
        end <= cut <= bytes.len(),
    ensures
        digits_value(bytes.take(cut), from, end) == digits_value(bytes, from, end),
    decreases end - from,
{
    if from < end {
        lemma_prefix_value(bytes, cut, from, end - 1);
        assert(bytes.take(cut)[end - 1] == bytes[end - 1]);
    }
}

proof fn lemma_prefix_text(bytes: Seq<u8>, cut: int, at: int, text: Seq<u8>)
    requires
        0 <= at,
        0 <= cut <= bytes.len(),
        has_text(bytes.take(cut), at, text),
    ensures
        has_text(bytes, at, text),
        at + text.len() <= cut,
{
    assert forall|i: int| 0 <= i < text.len() implies #[trigger] text[i] == bytes[at + i] by {
        assert(text[i] == bytes.take(cut)[at + i]);
    }
}

proof fn lemma_prefix_format(bytes: Seq<u8>, cut: int)
    requires
        0 <= cut <= bytes.len(),
        has_format(bytes.take(cut)),
    ensures
        has_format(bytes),
        is_binary(bytes) == is_binary(bytes.take(cut)),
        count_size(bytes) == count_size(bytes.take(cut)),
{
    let front = bytes.take(cut);
    let places = format_places(front);
    lemma_prefix_text(bytes, cut, 0, format_tag());
    lemma_prefix_breaks(bytes, cut, 11);
    lemma_prefix_runs(bytes, cut, places.version);
    lemma_prefix_breaks(bytes, cut, word_end(front, places.version));
    lemma_prefix_runs(bytes, cut, places.kind);
    lemma_prefix_breaks(bytes, cut, digits_end(front, places.kind));
    lemma_prefix_runs(bytes, cut, places.size);
    lemma_prefix_breaks(bytes, cut, places.end);
    assert(format_places(bytes) == places);
    lemma_prefix_value(bytes, cut, places.kind, digits_end(front, places.kind));
    lemma_prefix_value(bytes, cut, places.size, places.end);
}

proof fn lemma_value_bound(bytes: Seq<u8>, from: int, middle: int, end: int)
    requires
        0 <= from <= middle <= end <= bytes.len(),
        forall|i: int| from <= i < end ==> is_digit(#[trigger] bytes[i]),
    ensures
        0 <= digits_value(bytes, from, middle) <= digits_value(bytes, from, end),
    decreases end - from,
{
    if from < end {
        if middle < end {
            lemma_value_bound(bytes, from, middle, end - 1);
            assert(is_digit(bytes[end - 1]));
        } else {
            lemma_value_bound(bytes, from, middle - 1, end - 1);
            assert(is_digit(bytes[end - 1]));
        }
    }
}

proof fn lemma_digits_run(bytes: Seq<u8>, from: int)
    requires
        0 <= from <= bytes.len(),
    ensures
        from <= digits_end(bytes, from) <= bytes.len(),
        forall|i: int| from <= i < digits_end(bytes, from) ==> is_digit(#[trigger] bytes[i]),
    decreases bytes.len() - from,
{
    if from < bytes.len() && is_digit(bytes[from]) {
        lemma_digits_run(bytes, from + 1);
    }
}

proof fn lemma_prefix_announces(bytes: Seq<u8>, cut: int, tag: Seq<u8>, at: int)
    requires
        0 <= at,
        0 <= cut <= bytes.len(),
        announces_nothing(bytes.take(cut), tag, at),
    ensures
        announces_nothing(bytes, tag, at),
{
    let front = bytes.take(cut);
    lemma_prefix_text(bytes, cut, at, tag);
    lemma_prefix_breaks(bytes, cut, (at + tag.len()) as int);
    lemma_prefix_format(bytes, cut);
    let from = at + tag.len() + break_width(bytes, (at + tag.len()) as int);
    if is_binary(bytes) {
        let size = count_size(bytes);
        assert forall|i: int| from + size <= i < from + 2 * size implies #[trigger] bytes[i]
            == 0 by {
            if i >= 0 {
                assert(front[i] == bytes[i]);
            }
            let places = format_places(bytes);
            lemma_prefix_runs(bytes, bytes.len() as int, places.kind);
            assert(bytes.take(bytes.len() as int) =~= bytes);
        }
    } else {
        let first = spaces_end(front, from);
        lemma_prefix_runs(bytes, cut, from);
        lemma_prefix_runs(bytes, cut, first);
        let first_end = digits_end(front, first);
        lemma_prefix_runs(bytes, cut, first_end);
        let start = spaces_end(front, first_end);
        lemma_prefix_runs(bytes, cut, start);
        assert forall|i: int| start <= i < digits_end(bytes, start) implies #[trigger] bytes[i]
            == 0x30 by {
            assert(front[i] == bytes[i]);
        }
    }
}

/// The beginning of a file can be parsed where nothing fails in it.
proof fn lemma_prefix_can_be_parsed(bytes: Seq<u8>, cut: int)
    requires
        0 <= cut <= bytes.len(),
        size_is_known(bytes),
        forall|c: int, at: int| at < cut ==> !#[trigger] fails_at(bytes, c, at),
    ensures
        can_be_parsed(bytes.take(cut)),
{
    let front = bytes.take(cut);
    if has_format(front) {
        lemma_prefix_format(bytes, cut);
    }
    assert forall|c: int, at: int| at < front.len() implies !#[trigger] fails_at(front, c, at) by {
        if fails_at(front, c, at) {
            assert(front.take(c) =~= bytes.take(c));
            assert forall|i: int| c <= i < at implies is_space(#[trigger] bytes[i]) by {
                assert(front[i] == bytes[i]);
            }
            assert(is_reached(bytes, c, at));
            if opens_section(front, entities_tag(), at) {
                lemma_prefix_text(bytes, cut, at, entities_tag());
                lemma_prefix_breaks(bytes, cut, (at + entities_tag().len()) as int);
            }
            if opens_section(front, nodes_tag(), at) {
                lemma_prefix_text(bytes, cut, at, nodes_tag());
                lemma_prefix_breaks(bytes, cut, (at + nodes_tag().len()) as int);
            }
            if opens_section(front, elements_tag(), at) {
                lemma_prefix_text(bytes, cut, at, elements_tag());
                lemma_prefix_breaks(bytes, cut, (at + elements_tag().len()) as int);
            }
            if announces_nothing(front, nodes_tag(), at) {
                lemma_prefix_announces(bytes, cut, nodes_tag(), at);
            }
            if announces_nothing(front, elements_tag(), at) {
                lemma_prefix_announces(bytes, cut, elements_tag(), at);
            }
            assert(fails_at(bytes, c, at));
        }
    }
}

// Deciding whether the bytes can be parsed.

/// Decides whether `text` stands at place `at`.
fn find_text(bytes: &Vec<u8>, at: usize, text: &Vec<u8>) -> (found: bool)
    requires
        at <= bytes.len(),
    ensures
        found == has_text(bytes@, at as int, text@),
{
    if bytes.len() - at < text.len() {
        return false;
    }
    let mut index: usize = 0;
    while index < text.len()
        invariant
            index <= text.len(),
            at + text.len() <= bytes.len(),
            forall|i: int| 0 <= i < index ==> #[trigger] text@[i] == bytes@[at + i],
        decreases text.len() - index,
    {
        if text[index] != bytes[at + index] {
            assert(text@[index as int] != bytes@[at + index]);
            return false;
        }
        index = index + 1;
    }
    true
}

/// Measures the line break at place `at`.
fn measure_break(bytes: &Vec<u8>, at: usize) -> (width: usize)
    requires
        at <= bytes.len(),
    ensures
        width == break_width(bytes@, at as int),
        at + width <= bytes.len(),
{
    if at < bytes.len() && bytes[at] == 0x0A {
        1
    } else if bytes.len() - at > 1 && bytes[at] == 0x0D && bytes[at + 1] == 0x0A {
        2
    } else {
        0
    }
}

/// Measures the separator at place `at`.
fn measure_gap(bytes: &Vec<u8>, at: usize) -> (width: usize)
    requires
        at <= bytes.len(),
    ensures
        width == gap_width(bytes@, at as int),
        at + width <= bytes.len(),
{
    if at < bytes.len() && (bytes[at] == 0x20 || bytes[at] == 0x09) {
        1
    } else {
        measure_break(bytes, at)
    }
}

/// Decides whether a byte is white space.
fn check_space(byte: u8) -> (space: bool)
    ensures
        space == is_space(byte),
{
    byte == 0x20 || byte == 0x09 || byte == 0x0D || byte == 0x0A
}

/// Passes over bytes that are no white space.
fn skip_word(bytes: &Vec<u8>, from: usize) -> (end: usize)
    requires
        from <= bytes.len(),
    ensures
        end == word_end(bytes@, from as int),
        from <= end <= bytes.len(),
{
    let mut end: usize = from;
    while end < bytes.len() && !check_space(bytes[end])
        invariant
            from <= end <= bytes.len(),
            word_end(bytes@, end as int) == word_end(bytes@, from as int),
        decreases bytes.len() - end,
    {
        end = end + 1;
    }
    end
}

/// Passes over white space.
fn skip_spaces(bytes: &Vec<u8>, from: usize) -> (end: usize)
    requires
        from <= bytes.len(),
    ensures
        end == spaces_end(bytes@, from as int),
        from <= end <= bytes.len(),
{
    let mut end: usize = from;
    while end < bytes.len() && check_space(bytes[end])
        invariant
            from <= end <= bytes.len(),
            spaces_end(bytes@, end as int) == spaces_end(bytes@, from as int),
        decreases bytes.len() - end,
    {
        end = end + 1;
    }
    end
}

/// Passes over digits.
fn skip_digits(bytes: &Vec<u8>, from: usize) -> (end: usize)
    requires
        from <= bytes.len(),
    ensures
        end == digits_end(bytes@, from as int),
        from <= end <= bytes.len(),
{
    let mut end: usize = from;
    while end < bytes.len() && 0x30 <= bytes[end] && bytes[end] <= 0x39
        invariant
            from <= end <= bytes.len(),
            digits_end(bytes@, end as int) == digits_end(bytes@, from as int),
        decreases bytes.len() - end,
    {
        end = end + 1;
    }
    end
}

/// Reads a number, where it is at most `LARGEST_SIZE`.
fn read_number(bytes: &Vec<u8>, from: usize, end: usize) -> (number: Option<u64>)
    requires
        from <= end <= bytes.len(),
        forall|i: int| from <= i < end ==> is_digit(#[trigger] bytes@[i]),
    ensures
        number is Some <==> digits_value(bytes@, from as int, end as int) <= LARGEST_SIZE,
        number is Some ==> number->0 == digits_value(bytes@, from as int, end as int),
{
    let mut value: u64 = 0;
    let mut index: usize = from;
    while index < end
        invariant
            from <= index <= end <= bytes.len(),
            forall|i: int| from <= i < end ==> is_digit(#[trigger] bytes@[i]),
            value == digits_value(bytes@, from as int, index as int),
            value <= LARGEST_SIZE,
        decreases end - index,
    {
        assert(is_digit(bytes@[index as int]));
        let next: u64 = 10 * value + (bytes[index] - 0x30) as u64;
        assert(next == digits_value(bytes@, from as int, index + 1));
        if next > LARGEST_SIZE {
            proof {
                lemma_value_bound(bytes@, from as int, index + 1, end as int);
            }
            return None;
        }
        value = next;
        index = index + 1;
    }
    Some(value)
}

/// What the format line says of the counts of a file.
#[derive(Debug, Clone, Copy)]
struct CountFormat {
    binary: bool,
    size: usize,
}

/// Whether the format is that of the file; nothing where the format line cannot be read.
spec fn is_format_of(bytes: Seq<u8>, format: Option<CountFormat>) -> bool {
    &&& format is Some <==> has_format(bytes)
    &&& format is Some ==> format->0.binary == is_binary(bytes) && (is_binary(bytes)
        ==> format->0.size == count_size(bytes) && is_count_size(count_size(bytes)))
}

/// Reads the format line. Gives nothing where the size that it names is not known.
fn read_format(bytes: &Vec<u8>) -> (read: Option<Option<CountFormat>>)
    ensures
        read is Some <==> size_is_known(bytes@),
        read is Some ==> is_format_of(bytes@, read->0),
{
    let tag: Vec<u8> = vec![0x24, 0x4D, 0x65, 0x73, 0x68, 0x46, 0x6F, 0x72, 0x6D, 0x61, 0x74];
    assert(tag@ =~= format_tag());
    if !find_text(bytes, 0, &tag) {
        return Some(None);
    }
    let width: usize = measure_break(bytes, 11);
    if width == 0 {
        return Some(None);
    }
    let version: usize = 11 + width;
    let version_end: usize = skip_word(bytes, version);
    let first_gap: usize = measure_gap(bytes, version_end);
    let kind: usize = version_end + first_gap;
    let kind_end: usize = skip_digits(bytes, kind);
    let second_gap: usize = measure_gap(bytes, kind_end);
    let size: usize = kind_end + second_gap;
    let end: usize = skip_digits(bytes, size);
    if first_gap == 0 || kind == kind_end || second_gap == 0 || size == end || measure_break(
        bytes,
        end,
    ) == 0 {
        return Some(None);
    }
    proof {
        lemma_digits_run(bytes@, kind as int);
        lemma_digits_run(bytes@, size as int);
    }
    let binary: bool = match read_number(bytes, kind, kind_end) {
        Some(number) => number == 1,
        None => false,
    };
    match read_number(bytes, size, end) {
        Some(number) => {
            if !binary {
                Some(Some(CountFormat { binary, size: 0 }))
            } else if number == 1 || number == 2 || number == 4 || number == 8 || number == 16 {
                Some(Some(CountFormat { binary, size: number as usize }))
            } else {
                None
            }
        },
        None => None,
    }
}

/// Decides whether all bytes of a range have a value.
fn all_equal(bytes: &Vec<u8>, from: usize, end: usize, value: u8) -> (equal: bool)
    requires
        from <= end <= bytes.len(),
    ensures
        equal == forall|i: int| from <= i < end ==> #[trigger] bytes@[i] == value,
{
    let mut index: usize = from;
    while index < end
        invariant
            from <= index <= end <= bytes.len(),
            forall|i: int| from <= i < index ==> #[trigger] bytes@[i] == value,
        decreases end - index,
    {
        if bytes[index] != value {
            assert(bytes@[index as int] != value);
            return false;
        }
        index = index + 1;
    }
    true
}

/// Decides whether the second of the counts from `from` on is zero.
fn counts_zero(bytes: &Vec<u8>, format: CountFormat, from: usize) -> (zero: bool)
    requires
        is_format_of(bytes@, Some(format)),
        from <= bytes.len(),
    ensures
        zero == second_count_is_zero(bytes@, from as int),
{
    if format.binary {
        if bytes.len() - from < 2 * format.size {
            return false;
        }
        all_equal(bytes, from + format.size, from + 2 * format.size, 0)
    } else {
        let first: usize = skip_spaces(bytes, from);
        let gap: usize = skip_digits(bytes, first);
        let start: usize = skip_spaces(bytes, gap);
        let end: usize = skip_digits(bytes, start);
        start < end && end < bytes.len() && all_equal(bytes, start, end, 0x30)
    }
}

/// Decides whether the line that opens a section stands at place `at`.
fn check_section(bytes: &Vec<u8>, tag: &Vec<u8>, at: usize) -> (opens: bool)
    requires
        at <= bytes.len(),
    ensures
        opens == opens_section(bytes@, tag@, at as int),
{
    find_text(bytes, at, tag) && measure_break(bytes, at + tag.len()) > 0
}

/// Decides whether the section that opens at place `at` announces nothing.
fn check_announcement(
    bytes: &Vec<u8>,
    format: Option<CountFormat>,
    tag: &Vec<u8>,
    at: usize,
) -> (nothing: bool)
    requires
        is_format_of(bytes@, format),
        at <= bytes.len(),
        opens_section(bytes@, tag@, at as int),
    ensures
        nothing == announces_nothing(bytes@, tag@, at as int),
{
    match format {
        Some(known) => {
            let behind: usize = at + tag.len();
            let width: usize = measure_break(bytes, behind);
            counts_zero(bytes, known, behind + width)
        },
        None => false,
    }
}

/// The sections that matter and open at a place.
#[derive(Debug, Clone, Copy)]
struct Opening {
    entities: bool,
    nodes: bool,
    elements: bool,
    nothing: bool,
}

/// Whether the opening is the one at place `at`.
spec fn is_opening(bytes: Seq<u8>, at: int, opening: Opening) -> bool {
    &&& opening.entities == opens_section(bytes, entities_tag(), at)
    &&& opening.nodes == opens_section(bytes, nodes_tag(), at)
    &&& opening.elements == opens_section(bytes, elements_tag(), at)
    &&& opening.nothing == (announces_nothing(bytes, nodes_tag(), at) || announces_nothing(
        bytes,
        elements_tag(),
        at,
    ))
}

/// Finds the sections that open at a place.
fn find_opening(bytes: &Vec<u8>, format: Option<CountFormat>, at: usize) -> (opening: Opening)
    requires
        is_format_of(bytes@, format),
        at <= bytes.len(),
    ensures
        is_opening(bytes@, at as int, opening),
{
    if at == bytes.len() || bytes[at] != 0x24 {
        assert(entities_tag()[0] == 0x24 && nodes_tag()[0] == 0x24 && elements_tag()[0] == 0x24);
        return Opening { entities: false, nodes: false, elements: false, nothing: false };
    }
    let entities: Vec<u8> = vec![0x24, 0x45, 0x6E, 0x74, 0x69, 0x74, 0x69, 0x65, 0x73];
    let nodes: Vec<u8> = vec![0x24, 0x4E, 0x6F, 0x64, 0x65, 0x73];
    let elements: Vec<u8> = vec![0x24, 0x45, 0x6C, 0x65, 0x6D, 0x65, 0x6E, 0x74, 0x73];
    assert(entities@ =~= entities_tag());
    assert(nodes@ =~= nodes_tag());
    assert(elements@ =~= elements_tag());
    let opens_nodes: bool = check_section(bytes, &nodes, at);
    let opens_elements: bool = check_section(bytes, &elements, at);
    Opening {
        entities: check_section(bytes, &entities, at),
        nodes: opens_nodes,
        elements: opens_elements,
        nothing: (opens_nodes && check_announcement(bytes, format, &nodes, at)) || (opens_elements
            && check_announcement(bytes, format, &elements, at)),
    }
}

/// Copies the first bytes of a file.
fn copy_front(bytes: &Vec<u8>, cut: usize) -> (front: Vec<u8>)
    requires
        cut <= bytes.len(),
    ensures
        front@ == bytes@.take(cut as int),
{
    let mut front: Vec<u8> = Vec::new();
    while front.len() < cut
        invariant
            front.len() <= cut <= bytes.len(),
            forall|i: int| 0 <= i < front.len() ==> #[trigger] front@[i] == bytes@[i],
        decreases cut - front.len(),
    {
        let next: usize = front.len();
        front.push(bytes[next]);
    }
    assert(front@ =~= bytes@.take(cut as int));
    front
}

/// Decides whether reading fails at a section.
fn check_failure(bytes: &Vec<u8>, opening: Opening, at: usize) -> (fails: bool)
    requires
        at < bytes.len(),
        size_is_known(bytes@),
        is_opening(bytes@, at as int, opening),
        forall|c: int, p: int| p < at ==> !#[trigger] fails_at(bytes@, c, p),
    ensures
        fails == exists|c: int| #[trigger] fails_at(bytes@, c, at as int),
{
    if !(opening.entities || opening.nodes || opening.elements) {
        return false;
    }
    let mut cut: usize = at;
    loop
        invariant
            cut <= at < bytes.len(),
            size_is_known(bytes@),
            is_opening(bytes@, at as int, opening),
            forall|c: int, p: int| p < at ==> !#[trigger] fails_at(bytes@, c, p),
            forall|i: int| cut <= i < at ==> is_space(#[trigger] bytes@[i]),
            forall|c: int| cut < c ==> !#[trigger] fails_at(bytes@, c, at as int),
        decreases cut,
    {
        let front = copy_front(bytes, cut);
        proof {
            lemma_prefix_can_be_parsed(bytes@, cut as int);
        }
        if let Some(before) = parsed_msh(&front) {
            if (opening.entities && before.has_entities) || (opening.nodes
                && before.node_counts.is_some()) || (opening.elements && before.blocks.is_some())
                || opening.nothing {
                assert(fails_at(bytes@, cut as int, at as int));
                return true;
            }
        }
        if cut == 0 {
            return false;
        }
        if !check_space(bytes[cut - 1]) {
            assert(!is_space(bytes@[cut - 1]));
            return false;
        }
        cut = cut - 1;
    }
}

/// Decides whether nothing in the bytes keeps the parser from coming to an end.
pub fn check_bytes(bytes: &Vec<u8>) -> (parsable: bool)
    ensures
        parsable == can_be_parsed(bytes@),
{
    let format: Option<CountFormat> = match read_format(bytes) {
        Some(format) => format,
        None => {
            return false;
        },
    };
    let mut at: usize = 0;
    while at < bytes.len()
        invariant
            at <= bytes.len(),
            size_is_known(bytes@),
            is_format_of(bytes@, format),
            forall|c: int, p: int| p < at ==> !#[trigger] fails_at(bytes@, c, p),
        decreases bytes.len() - at,
    {
        let opening = find_opening(bytes, format, at);
        if check_failure(bytes, opening, at) {
            return false;
        }
        at = at + 1;
    }
    true
}

// What the sections must hold for a mesh.

/// The number of nodes of all blocks together.
pub open spec fn node_total(counts: Seq<usize>) -> nat
    decreases counts.len(),
{
    if counts.len() == 0 {
        0
    } else {
        node_total(counts.drop_last()) + counts.last() as nat
    }
}

/// The number of nodes of a simplex of a kind; none where elements of the kind are passed over.
pub open spec fn nodes_of_kind(kind: i32) -> nat {
    if kind == POINT_KIND {
        1
    } else if kind == LINE_KIND {
        2
    } else if kind == TRIANGLE_KIND {
        3
    } else if kind == TETRAHEDRON_KIND {
        4
    } else {
        0
    }
}

/// Whether the nodes of an element are different, and none has the reserved tag.
pub open spec fn is_simplex(tags: Seq<u64>) -> bool {
    tags.no_duplicates() && forall|i: int|
        0 <= i < tags.len() ==> 1 <= #[trigger] tags[i] <= usize::MAX
}

/// Whether an element is a simplex of its kind. Elements of other kinds are passed over.
pub open spec fn element_fits(kind: i32, tags: Seq<u64>) -> bool {
    nodes_of_kind(kind) > 0 ==> tags.len() == nodes_of_kind(kind) && is_simplex(tags)
}

/// Whether all elements of a block fit.
pub open spec fn block_fits(block: (i32, Seq<Seq<u64>>)) -> bool {
    forall|e: int| 0 <= e < block.1.len() ==> element_fits(block.0, #[trigger] block.1[e])
}

/// The elements of a kind, in the order of the file.
pub open spec fn elements_of_kind(blocks: Seq<(i32, Seq<Seq<u64>>)>, kind: i32) -> Seq<Seq<u64>>
    decreases blocks.len(),
{
    if blocks.len() == 0 {
        Seq::empty()
    } else if blocks.last().0 == kind {
        elements_of_kind(blocks.drop_last(), kind) + blocks.last().1
    } else {
        elements_of_kind(blocks.drop_last(), kind)
    }
}

/// The kind of the cells: of tetrahedra, triangles and lines the first that the file holds.
pub open spec fn cell_kind(blocks: Seq<(i32, Seq<Seq<u64>>)>) -> i32 {
    if elements_of_kind(blocks, TETRAHEDRON_KIND).len() > 0 {
        TETRAHEDRON_KIND
    } else if elements_of_kind(blocks, TRIANGLE_KIND).len() > 0 {
        TRIANGLE_KIND
    } else {
        LINE_KIND
    }
}

/// The cells of the mesh, by the tags of their nodes.
pub open spec fn cells_of(blocks: Seq<(i32, Seq<Seq<u64>>)>) -> Seq<Seq<u64>> {
    elements_of_kind(blocks, cell_kind(blocks))
}

/// Whether all nodes of a cell are among the first `total`.
pub open spec fn nodes_exist(cell: Seq<u64>, total: nat) -> bool {
    forall|i: int| 0 <= i < cell.len() ==> #[trigger] cell[i] <= total
}

/// Whether two cells have the same nodes.
pub open spec fn same_nodes(left: Seq<u64>, right: Seq<u64>) -> bool {
    forall|tag: u64| #[trigger] left.contains(tag) <==> right.contains(tag)
}

/// Whether a cell has all nodes of the side of another cell that leaves out the node at a place.
pub open spec fn has_side(cell: Seq<u64>, other: Seq<u64>, place: int) -> bool {
    forall|i: int|
        0 <= i < other.len() && i != place ==> cell.contains(#[trigger] other[i])
}

/// Whether three different cells meet in a side of the first.
pub open spec fn meet_in_side(
    first: Seq<u64>,
    second: Seq<u64>,
    third: Seq<u64>,
    place: int,
) -> bool {
    &&& 0 <= place < first.len()
    &&& has_side(second, first, place) && has_side(third, first, place)
    &&& !same_nodes(first, second) && !same_nodes(first, third) && !same_nodes(second, third)
}

/// Whether no three different cells meet in a side.
pub open spec fn is_manifold(cells: Seq<Seq<u64>>) -> bool {
    forall|i: int, j: int, k: int, place: int|
        0 <= i < cells.len() && 0 <= j < cells.len() && 0 <= k < cells.len()
            ==> !#[trigger] meet_in_side(cells[i], cells[j], cells[k], place)
}

/// Whether the sections of a file describe a mesh.
pub open spec fn describes_mesh(sections: MshSections) -> bool {
    &&& sections.node_counts is Some
    &&& sections.blocks is Some
    &&& forall|b: int|
        0 <= b < sections.blocks->0.len() ==> block_fits(#[trigger] sections.blocks->0[b])
    &&& cells_of(sections.blocks->0).len() > 0
    &&& forall|c: int|
        0 <= c < cells_of(sections.blocks->0).len() ==> nodes_exist(
            #[trigger] cells_of(sections.blocks->0)[c],
            node_total(sections.node_counts->0),
        )
    &&& is_manifold(cells_of(sections.blocks->0))
}

/// Whether the bytes are an MSH file that holds a mesh.
pub open spec fn is_msh(bytes: Seq<u8>) -> bool {
    &&& can_be_parsed(bytes)
    &&& msh_contents(bytes) is Some
    &&& describes_mesh(msh_contents(bytes)->0)
}

/// What `gmsh2coord_complex` makes of the bytes of a file: the coordinates of the vertices, the
/// edges and the cells.
pub uninterp spec fn gmsh_parts(bytes: Seq<u8>) -> (
    Seq<Seq<u64>>,
    Seq<(usize, usize)>,
    Seq<Seq<usize>>,
);

/// Calls `gmsh2coord_complex` of the `simplicial` crate, which reads the bytes with `mshio`. Its
/// cells are the tetrahedra of the file, the triangles where there are none, or else the lines. It
/// keeps the nodes that are corners of cells, with two coordinates where all third ones are zero,
/// and with three elsewhere. It lists every edge and every cell once, with the vertices in rising
/// order. It fails where `mshio` fails, where the nodes or the elements are missing, where a point,
/// a line, a triangle or a tetrahedron has the tag zero or a node twice, where there is no cell or
/// a cell has a node that the file does not hold, and where more than two cells meet in a side. The
/// outcome depends on the bytes alone; of the values of the coordinates, and of the order of the
/// lists, nothing further is stated.
#[verifier::external_body]
fn parsed_gmsh(bytes: &Vec<u8>) -> (mesh: ReadMesh)
    requires
        is_msh(bytes@),
    ensures
        point_bits(mesh.points@) == gmsh_parts(bytes@).0,
        mesh.edges@ == gmsh_parts(bytes@).1,
        corner_lists(mesh.cells@) == gmsh_parts(bytes@).2,
        forall|v: int|
            0 <= v < mesh.points.len() ==> 2 <= (#[trigger] mesh.points@[v]).len() <= 3,
        forall|e: int|
            0 <= e < mesh.edges.len() ==> (#[trigger] mesh.edges@[e]).0 < mesh.edges@[e].1
                < mesh.points.len(),
        mesh.cells.len() > 0,
        forall|c: int|
            0 <= c < mesh.cells.len() ==> (#[trigger] mesh.cells@[c]).len() == nodes_of_kind(
                cell_kind(msh_contents(bytes@)->0.blocks->0),
            ),
        forall|c: int, i: int|
            #![trigger mesh.cells@[c]@[i]]
            0 <= c < mesh.cells.len() && 0 <= i < mesh.cells@[c].len() ==> mesh.cells@[c]@[i]
                < mesh.points.len(),
        forall|c: int, i: int, j: int|
            #![trigger mesh.cells@[c]@[i], mesh.cells@[c]@[j]]
            0 <= c < mesh.cells.len() && 0 <= i < j < mesh.cells@[c].len() ==> mesh.cells@[c]@[i]
                < mesh.cells@[c]@[j],
{
    let (complex, coords) = simplicial::io::gmsh::gmsh2coord_complex(bytes);
    ReadMesh {
        points: coords.coord_iter().map(|p| {
            p.view().iter().map(|x| Scalar { bits: x.to_bits() }).collect()
        }).collect(),
        edges: complex.skeleton_raw(1).iter().map(|s| (s[0], s[1])).collect(),
        cells: complex.skeleton_raw(complex.dim()).iter().map(|s| s.iter().collect()).collect(),
    }
}

// Deciding whether the sections describe a mesh.

/// The total over a list of counts grows by at most the largest count with each of them.
proof fn lemma_total_bound(counts: Seq<usize>)
    ensures
        node_total(counts) <= counts.len() * usize::MAX,
    decreases counts.len(),
{
    if counts.len() > 0 {
        lemma_total_bound(counts.drop_last());
        assert((counts.len() - 1) * usize::MAX + usize::MAX == counts.len() * usize::MAX)
            by (nonlinear_arith);
    }
}

/// Adds up the numbers of nodes.
fn count_nodes(counts: &Vec<usize>) -> (total: u128)
    ensures
        total == node_total(counts@),
{
    let mut total: u128 = 0;
    let mut index: usize = 0;
    while index < counts.len()
        invariant
            index <= counts.len(),
            total == node_total(counts@.take(index as int)),
        decreases counts.len() - index,
    {
        proof {
            assert(counts@.take(index + 1).drop_last() =~= counts@.take(index as int));
            lemma_total_bound(counts@.take(index + 1));
            assert((index + 1) * usize::MAX <= usize::MAX * usize::MAX) by (nonlinear_arith)
                requires
                    index + 1 <= usize::MAX,
            ;
            assert(usize::MAX * usize::MAX <= u128::MAX) by (nonlinear_arith)
                requires
                    usize::MAX <= 0xFFFF_FFFF_FFFF_FFFFint,
            ;
        }
        total = total + counts[index] as u128;
        index = index + 1;
    }
    assert(counts@.take(index as int) =~= counts@);
    total
}

/// Decides whether the nodes of an element are different and none has the reserved tag.
fn check_simplex(tags: &Vec<u64>) -> (simplex: bool)
    ensures
        simplex == is_simplex(tags@),
{
    let mut index: usize = 0;
    while index < tags.len()
        invariant
            index <= tags.len(),
            forall|i: int| 0 <= i < index ==> 1 <= #[trigger] tags@[i] <= usize::MAX,
            forall|i: int, j: int| 0 <= i < j < index ==> tags@[i] != tags@[j],
        decreases tags.len() - index,
    {
        let tag: u64 = tags[index];
        if tag == 0 || tag as u128 > usize::MAX as u128 {
            assert(!(1 <= tags@[index as int] <= usize::MAX));
            return false;
        }
        let mut earlier: usize = 0;
        while earlier < index
            invariant
                earlier <= index < tags.len(),
                tag == tags@[index as int],
                forall|i: int| 0 <= i < earlier ==> #[trigger] tags@[i] != tag,
            decreases index - earlier,
        {
            if tags[earlier] == tag {
                assert(tags@[earlier as int] == tags@[index as int]);
                return false;
            }
            earlier = earlier + 1;
        }
        index = index + 1;
    }
    true
}

/// Decides whether an element is a simplex of its kind.
fn check_element(kind: i32, tags: &Vec<u64>) -> (fits: bool)
    ensures
        fits == element_fits(kind, tags@),
{
    let count: usize = if kind == POINT_KIND {
        1
    } else if kind == LINE_KIND {
        2
    } else if kind == TRIANGLE_KIND {
        3
    } else if kind == TETRAHEDRON_KIND {
        4
    } else {
        0
    };
    count == 0 || (tags.len() == count && check_simplex(tags))
}

/// Decides whether all elements of all blocks fit.
fn check_blocks(blocks: &Vec<MshBlock>) -> (fit: bool)
    ensures
        fit == forall|b: int|
            0 <= b < blocks.len() ==> block_fits(#[trigger] block_views(blocks@)[b]),
{
    let ghost views = block_views(blocks@);
    let mut index: usize = 0;
    while index < blocks.len()
        invariant
            index <= blocks.len(),
            views == block_views(blocks@),
            forall|b: int| 0 <= b < index ==> block_fits(#[trigger] views[b]),
        decreases blocks.len() - index,
    {
        let block: &MshBlock = &blocks[index];
        let ghost lists = views[index as int].1;
        assert(views[index as int] == block_view(*block));
        let mut place: usize = 0;
        while place < block.elements.len()
            invariant
                place <= block.elements.len(),
                index < views.len(),
                views[index as int] == block_view(*block),
                views == block_views(blocks@),
                views.len() == blocks.len(),
                lists == views[index as int].1,
                forall|e: int|
                    0 <= e < place ==> element_fits(block.kind, #[trigger] lists[e]),
            decreases block.elements.len() - place,
        {
            assert(lists[place as int] == block.elements@[place as int]@);
            if !check_element(block.kind, &block.elements[place]) {
                assert(!element_fits(views[index as int].0, views[index as int].1[place as int]));
                assert(!block_fits(block_views(blocks@)[index as int]));
                return false;
            }
            place = place + 1;
        }
        index = index + 1;
    }
    true
}

/// Copies the tags of an element.
fn copy_tags(tags: &Vec<u64>) -> (copy: Vec<u64>)
    ensures
        copy@ == tags@,
{
    let mut copy: Vec<u64> = Vec::new();
    while copy.len() < tags.len()
        invariant
            copy.len() <= tags.len(),
            forall|i: int| 0 <= i < copy.len() ==> #[trigger] copy@[i] == tags@[i],
        decreases tags.len() - copy.len(),
    {
        let next: usize = copy.len();
        copy.push(tags[next]);
    }
    assert(copy@ =~= tags@);
    copy
}

/// Lists the elements of a kind.
fn list_elements(blocks: &Vec<MshBlock>, kind: i32) -> (elements: Vec<Vec<u64>>)
    ensures
        tag_lists(elements@) == elements_of_kind(block_views(blocks@), kind),
{
    let ghost views = block_views(blocks@);
    let mut elements: Vec<Vec<u64>> = Vec::new();
    let mut index: usize = 0;
    assert(tag_lists(elements@) =~= Seq::<Seq<u64>>::empty());
    while index < blocks.len()
        invariant
            index <= blocks.len(),
            views == block_views(blocks@),
            tag_lists(elements@) == elements_of_kind(views.take(index as int), kind),
        decreases blocks.len() - index,
    {
        let block: &MshBlock = &blocks[index];
        let ghost before = tag_lists(elements@);
        let ghost lists = tag_lists(block.elements@);
        proof {
            assert(views[index as int] == block_view(*block));
            assert(views.take(index + 1).drop_last() =~= views.take(index as int));
            assert(views.take(index + 1).last() == views[index as int]);
        }
        if block.kind == kind {
            let mut place: usize = 0;
            while place < block.elements.len()
                invariant
                    place <= block.elements.len(),
                    lists == tag_lists(block.elements@),
                    tag_lists(elements@) =~= before + lists.take(place as int),
                decreases block.elements.len() - place,
            {
                let ghost listed = elements@;
                elements.push(copy_tags(&block.elements[place]));
                proof {
                    assert(lists[place as int] == block.elements@[place as int]@);
                    assert(tag_lists(elements@) =~= tag_lists(listed).push(lists[place as int]));
                    assert(lists.take(place + 1) =~= lists.take(place as int).push(
                        lists[place as int],
                    ));
                }
                place = place + 1;
            }
            assert(lists.take(place as int) =~= lists);
        }
        index = index + 1;
    }
    assert(views.take(index as int) =~= views);
    elements
}

/// Lists the cells of the mesh.
fn list_cells(blocks: &Vec<MshBlock>) -> (cells: Vec<Vec<u64>>)
    ensures
        tag_lists(cells@) == cells_of(block_views(blocks@)),
{
    let tetrahedra = list_elements(blocks, TETRAHEDRON_KIND);
    if tetrahedra.len() > 0 {
        assert(tag_lists(tetrahedra@).len() > 0);
        return tetrahedra;
    }
    assert(tag_lists(tetrahedra@).len() == 0);
    let triangles = list_elements(blocks, TRIANGLE_KIND);
    if triangles.len() > 0 {
        assert(tag_lists(triangles@).len() > 0);
        return triangles;
    }
    assert(tag_lists(triangles@).len() == 0);
    list_elements(blocks, LINE_KIND)
}

/// Decides whether all nodes of all cells are among the first `total`.
fn check_nodes(cells: &Vec<Vec<u64>>, total: u128) -> (exist: bool)
    ensures
        exist == forall|c: int|
            0 <= c < cells.len() ==> nodes_exist(#[trigger] tag_lists(cells@)[c], total as nat),
{
    let ghost lists = tag_lists(cells@);
    let mut index: usize = 0;
    while index < cells.len()
        invariant
            index <= cells.len(),
            lists == tag_lists(cells@),
            forall|c: int| 0 <= c < index ==> nodes_exist(#[trigger] lists[c], total as nat),
        decreases cells.len() - index,
    {
        let cell: &Vec<u64> = &cells[index];
        assert(lists[index as int] == cell@);
        let mut place: usize = 0;
        while place < cell.len()
            invariant
                place <= cell.len(),
                index < lists.len(),
                lists == tag_lists(cells@),
                lists.len() == cells.len(),
                lists[index as int] == cell@,
                forall|i: int| 0 <= i < place ==> #[trigger] cell@[i] <= total,
            decreases cell.len() - place,
        {
            if cell[place] as u128 > total {
                assert(cell@[place as int] > total);
                assert(!nodes_exist(tag_lists(cells@)[index as int], total as nat));
                return false;
            }
            place = place + 1;
        }
        index = index + 1;
    }
    true
}

/// Finds a node of a cell.
fn find_node(cell: &Vec<u64>, tag: u64) -> (found: bool)
    ensures
        found == cell@.contains(tag),
{
    let mut index: usize = 0;
    while index < cell.len()
        invariant
            index <= cell.len(),
            forall|i: int| 0 <= i < index ==> #[trigger] cell@[i] != tag,
        decreases cell.len() - index,
    {
        if cell[index] == tag {
            assert(cell@[index as int] == tag);
            return true;
        }
        index = index + 1;
    }
    false
}

/// Decides whether a cell has all nodes of a side of another cell.
fn check_side(cell: &Vec<u64>, other: &Vec<u64>, place: usize) -> (has: bool)
    ensures
        has == has_side(cell@, other@, place as int),
{
    let mut index: usize = 0;
    while index < other.len()
        invariant
            index <= other.len(),
            forall|i: int| 0 <= i < index && i != place ==> cell@.contains(#[trigger] other@[i]),
        decreases other.len() - index,
    {
        if index != place && !find_node(cell, other[index]) {
            assert(!cell@.contains(other@[index as int]));
            return false;
        }
        index = index + 1;
    }
    true
}

/// Decides whether two cells have the same nodes.
fn compare_nodes(left: &Vec<u64>, right: &Vec<u64>) -> (same: bool)
    ensures
        same == same_nodes(left@, right@),
{
    let same: bool = check_side(left, right, right.len()) && check_side(right, left, left.len());
    proof {
        if same {
            assert forall|tag: u64| #[trigger] left@.contains(tag) <==> right@.contains(tag) by {
                if left@.contains(tag) {
                    let i = choose|i: int| 0 <= i < left.len() && left@[i] == tag;
                    assert(right@.contains(left@[i]));
                }
                if right@.contains(tag) {
                    let i = choose|i: int| 0 <= i < right.len() && right@[i] == tag;
                    assert(left@.contains(right@[i]));
                }
            }
        } else if same_nodes(left@, right@) {
            assert forall|i: int| 0 <= i < right.len() implies left@.contains(
                #[trigger] right@[i],
            ) by {
                assert(right@.contains(right@[i]));
            }
            assert forall|i: int| 0 <= i < left.len() implies right@.contains(
                #[trigger] left@[i],
            ) by {
                assert(left@.contains(left@[i]));
            }
        }
    }
    same
}

/// Cells with the nodes of one cell have the same nodes.
proof fn lemma_same_nodes(first: Seq<u64>, left: Seq<u64>, right: Seq<u64>)
    requires
        same_nodes(first, left),
        same_nodes(first, right),
    ensures
        same_nodes(left, right),
{
    assert forall|tag: u64| #[trigger] left.contains(tag) <==> right.contains(tag) by {
        assert(first.contains(tag) <==> left.contains(tag));
        assert(first.contains(tag) <==> right.contains(tag));
    }
}

/// Decides whether at most one other cell meets a cell in a side.
fn check_meeting(cells: &Vec<Vec<u64>>, first: &Vec<u64>, place: usize) -> (free: bool)
    requires
        place < first.len(),
    ensures
        free == forall|j: int, k: int|
            0 <= j < cells.len() && 0 <= k < cells.len() ==> !#[trigger] meet_in_side(
                first@,
                tag_lists(cells@)[j],
                tag_lists(cells@)[k],
                place as int,
            ),
{
    let ghost lists = tag_lists(cells@);
    let mut other: Option<usize> = None;
    let mut index: usize = 0;
    while index < cells.len()
        invariant
            index <= cells.len(),
            place < first.len(),
            lists == tag_lists(cells@),
            lists.len() == cells.len(),
            other is Some ==> other->0 < index && has_side(
                lists[other->0 as int],
                first@,
                place as int,
            ) && !same_nodes(first@, lists[other->0 as int]),
            forall|t: int|
                #![trigger lists[t]]
                0 <= t < index && has_side(lists[t], first@, place as int) && !same_nodes(
                    first@,
                    lists[t],
                ) ==> other is Some && same_nodes(lists[other->0 as int], lists[t]),
        decreases cells.len() - index,
    {
        let next: &Vec<u64> = &cells[index];
        assert(lists[index as int] == next@);
        if check_side(next, first, place) && !compare_nodes(first, next) {
            match other {
                Some(known) => {
                    assert(lists[known as int] == cells@[known as int]@);
                    if !compare_nodes(&cells[known], next) {
                        assert(meet_in_side(
                            first@,
                            tag_lists(cells@)[known as int],
                            tag_lists(cells@)[index as int],
                            place as int,
                        ));
                        return false;
                    }
                },
                None => {
                    other = Some(index);
                },
            }
        }
        index = index + 1;
    }
    assert forall|j: int, k: int|
        0 <= j < cells.len() && 0 <= k < cells.len() implies !#[trigger] meet_in_side(
        first@,
        lists[j],
        lists[k],
        place as int,
    ) by {
        if meet_in_side(first@, lists[j], lists[k], place as int) {
            lemma_same_nodes(lists[other->0 as int], lists[j], lists[k]);
        }
    }
    true
}

/// Decides whether no three different cells meet in a side.
fn check_manifold(cells: &Vec<Vec<u64>>) -> (manifold: bool)
    ensures
        manifold == is_manifold(tag_lists(cells@)),
{
    let ghost lists = tag_lists(cells@);
    let mut index: usize = 0;
    while index < cells.len()
        invariant
            index <= cells.len(),
            lists == tag_lists(cells@),
            lists.len() == cells.len(),
            forall|i: int, j: int, k: int, place: int|
                0 <= i < index && 0 <= j < cells.len() && 0 <= k < cells.len()
                    ==> !#[trigger] meet_in_side(lists[i], lists[j], lists[k], place),
        decreases cells.len() - index,
    {
        let first: &Vec<u64> = &cells[index];
        assert(lists[index as int] == first@);
        let mut place: usize = 0;
        while place < first.len()
            invariant
                place <= first.len(),
                index < cells.len(),
                lists == tag_lists(cells@),
                lists.len() == cells.len(),
                lists[index as int] == first@,
                forall|j: int, k: int, p: int|
                    0 <= j < cells.len() && 0 <= k < cells.len() && p < place
                        ==> !#[trigger] meet_in_side(first@, lists[j], lists[k], p),
            decreases first.len() - place,
        {
            if !check_meeting(cells, first, place) {
                return false;
            }
            place = place + 1;
        }
        index = index + 1;
    }
    true
}

/// Decides whether the sections of a file describe a mesh.
pub fn check_contents(contents: &MshContents) -> (describes: bool)
    ensures
        describes == describes_mesh(contents@),
{
    match (&contents.node_counts, &contents.blocks) {
        (Some(counts), Some(blocks)) => {
            if !check_blocks(blocks) {
                return false;
            }
            let cells = list_cells(blocks);
            let total: u128 = count_nodes(counts);
            assert(tag_lists(cells@).len() == cells.len());
            cells.len() > 0 && check_nodes(&cells, total) && check_manifold(&cells)
        },
        _ => false,
    }
}

/// The message for bytes that hold no mesh.
pub open spec fn unreadable_text() -> Seq<char> {
    "mesh file does not hold a mesh in MSH format 4.1"@
}

/// Reads a mesh from the bytes of an MSH file: the coordinates of the vertices, and the topology.
pub fn read_planar_mesh(bytes: &Vec<u8>) -> (read: Result<(Vec<Vec<Scalar>>, MeshTopology), String>)
    ensures
        read is Ok <==> is_msh(bytes@),
        match read {
            Ok((points, topology)) => {
                &&& topology.wf()
                &&& point_bits(points@) == gmsh_parts(bytes@).0
                &&& topology.vertex_count == points.len()
                &&& topology.edges@ == gmsh_parts(bytes@).1
                &&& corner_lists(topology.cells@) == gmsh_parts(bytes@).2
                &&& forall|v: int|
                    0 <= v < points.len() ==> 2 <= (#[trigger] points@[v]).len() <= 3
                &&& topology.cells.len() > 0
                &&& forall|c: int|
                    0 <= c < topology.cells.len() ==> (#[trigger] topology.cells@[c]).len()
                        == nodes_of_kind(cell_kind(msh_contents(bytes@)->0.blocks->0))
                &&& forall|c: int, i: int|
                    #![trigger topology.cells@[c]@[i]]
                    0 <= c < topology.cells.len() && 0 <= i < topology.cells@[c].len()
                        ==> topology.cells@[c]@[i] < points.len()
                &&& forall|c: int, i: int, j: int|
                    #![trigger topology.cells@[c]@[i], topology.cells@[c]@[j]]
                    0 <= c < topology.cells.len() && 0 <= i < j < topology.cells@[c].len()
                        ==> topology.cells@[c]@[i] < topology.cells@[c]@[j]
            },
            Err(message) => message@ == unreadable_text(),
        },
{
    if check_bytes(bytes) {
        if let Some(contents) = parsed_msh(bytes) {
            if check_contents(&contents) {
                let mesh: ReadMesh = parsed_gmsh(bytes);
                let topology = MeshTopology {
                    vertex_count: mesh.points.len(),
                    edges: mesh.edges,
                    cells: mesh.cells,
                };
                assert(edges_in_range(topology.vertex_count as nat, topology.edges@));
                return Ok((mesh.points, topology));
            }
        }
    }
    Err(String::from_str("mesh file does not hold a mesh in MSH format 4.1"))
}

} // verus!
