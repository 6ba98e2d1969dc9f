//! The scene file: a header, then five sections, each starting at an aligned
//! offset and padded with zeros up to the next.
//!
//! How a header, an instance or a material is laid out byte by byte is the
//! business of the file format's own records, which the caller encodes. This
//! module decides where everything goes, what the header says about it, and
//! puts the file together.
use crate::export::Subset;
use crate::scene::Vertex;
use crate::single::Single;
use vstd::prelude::*;

verus! {

/// A run of bytes in the file.
#[derive(Debug, Clone, Copy, PartialEq, Eq, Structural)]
pub struct Section {
    pub start: usize,
    pub len: usize,
}

/// Where everything goes.
#[derive(Debug, Clone, Copy, PartialEq, Eq, Structural)]
pub struct Plan {
    pub header: Section,
    pub instances: Section,
    pub materials: Section,
    pub strings: Section,
    pub vertices: Section,
    pub indices: Section,
    /// How long the whole file is.
    pub total: usize,
}

/// What the header says.
#[derive(Debug, Clone, Copy)]
pub struct Header {
    pub bake_hash: u64,
    pub scene_min: [Single; 3],
    pub scene_max: [Single; 3],
    pub instances_offset: u64,
    pub instance_count: u32,
    pub material_count: u32,
    pub materials_offset: u64,
    pub strings_offset: u64,
    pub strings_len: u64,
    pub vertices_offset: u64,
    pub vertex_count: u64,
    pub indices_offset: u64,
    pub index_count: u64,
}

/// How many bytes a vertex takes.
pub const VERTEX_BYTES: usize = 32;

/// How many bytes an index takes.
pub const INDEX_BYTES: usize = 4;

/// The first multiple of `alignment` that is not below `x`.
pub open spec fn aligned(x: int, alignment: int) -> int {
    if x % alignment == 0 {
        x
    } else {
        x + alignment - x % alignment
    }
}

impl Section {
    /// Where the section ends.
    pub open spec fn end(self) -> int {
        self.start + self.len
    }

    /// Whether a byte of the file is in the section.
    pub open spec fn covers(self, i: int) -> bool {
        self.start <= i < self.end()
    }

    /// Starts at the first aligned offset from `from` on.
    pub open spec fn follows(self, from: int, alignment: int) -> bool {
        self.start == aligned(from, alignment)
    }
}

impl Plan {
    /// Every section starts at the first aligned offset behind the one before,
    /// and the file ends at the first aligned offset behind the last.
    pub open spec fn packed(self, alignment: int) -> bool {
        &&& self.header.start == 0
        &&& self.instances.follows(self.header.end(), alignment)
        &&& self.materials.follows(self.instances.end(), alignment)
        &&& self.strings.follows(self.materials.end(), alignment)
        &&& self.vertices.follows(self.strings.end(), alignment)
        &&& self.indices.follows(self.vertices.end(), alignment)
        &&& self.total == aligned(self.indices.end(), alignment)
    }

    /// Whether a byte of the file is in some section.
    pub open spec fn covers(self, i: int) -> bool {
        ||| self.header.covers(i)
        ||| self.instances.covers(i)
        ||| self.materials.covers(i)
        ||| self.strings.covers(i)
        ||| self.vertices.covers(i)
        ||| self.indices.covers(i)
    }

    /// Where each section starts if the sections have these lengths, and last
    /// where the file ends.
    pub open spec fn starts(lengths: Seq<int>, alignment: int) -> Seq<int> {
        let instances = aligned(lengths[0], alignment);
        let materials = aligned(instances + lengths[1], alignment);
        let strings = aligned(materials + lengths[2], alignment);
        let vertices = aligned(strings + lengths[3], alignment);
        let indices = aligned(vertices + lengths[4], alignment);
        seq![0, instances, materials, strings, vertices, indices, aligned(indices + lengths[5], alignment)]
    }

    /// Lay out a file for sections of these lengths; none when it would be
    /// longer than the machine can count.
    pub fn new(
        alignment: usize,
        header: usize,
        instances: usize,
        materials: usize,
        strings: usize,
        vertices: usize,
        indices: usize,
    ) -> (r: Option<Plan>)
        requires
            alignment > 0,
        ensures
            match r {
                Some(plan) => {
                    &&& plan.packed(alignment as int)
                    &&& plan.header.len == header
                    &&& plan.instances.len == instances
                    &&& plan.materials.len == materials
                    &&& plan.strings.len == strings
                    &&& plan.vertices.len == vertices
                    &&& plan.indices.len == indices
                },
                None => Plan::starts(
                    seq![
                        header as int,
                        instances as int,
                        materials as int,
                        strings as int,
                        vertices as int,
                        indices as int,
                    ],
                    alignment as int,
                )[6] > usize::MAX,
            },
    {
        proof {
            let a = alignment as int;
            let first = aligned(header as int, a);
            let second = aligned(first + instances, a);
            let third = aligned(second + materials, a);
            let fourth = aligned(third + strings, a);
            let fifth = aligned(fourth + vertices, a);
            lemma_aligned(header as int, a);
            lemma_aligned(first + instances, a);
            lemma_aligned(second + materials, a);
            lemma_aligned(third + strings, a);
            lemma_aligned(fourth + vertices, a);
            lemma_aligned(fifth + indices, a);
        }
        let instances_start: usize = match behind(0, header, alignment) {
            Some(start) => start,
            None => return None,
        };
        let materials_start: usize = match behind(instances_start, instances, alignment) {
            Some(start) => start,
            None => return None,
        };
        let strings_start: usize = match behind(materials_start, materials, alignment) {
            Some(start) => start,
            None => return None,
        };
        let vertices_start: usize = match behind(strings_start, strings, alignment) {
            Some(start) => start,
            None => return None,
        };
        let indices_start: usize = match behind(vertices_start, vertices, alignment) {
            Some(start) => start,
            None => return None,
        };
        let total: usize = match behind(indices_start, indices, alignment) {
            Some(end) => end,
            None => return None,
        };
        Some(
            Plan {
                header: Section { start: 0, len: header },
                instances: Section { start: instances_start, len: instances },
                materials: Section { start: materials_start, len: materials },
                strings: Section { start: strings_start, len: strings },
                vertices: Section { start: vertices_start, len: vertices },
                indices: Section { start: indices_start, len: indices },
                total,
            },
        )
    }
}

/// The first aligned offset behind a section; none when it cannot be counted.
fn behind(start: usize, len: usize, alignment: usize) -> (r: Option<usize>)
    requires
        alignment > 0,
    ensures
        match r {
            Some(offset) => offset == aligned(start + len, alignment as int),
            None => aligned(start + len, alignment as int) > usize::MAX,
        },
{
    proof {
        lemma_aligned(start + len, alignment as int);
    }
    let end: usize = match start.checked_add(len) {
        Some(end) => end,
        None => return None,
    };
    let over: usize = end % alignment;
    if over == 0 {
        Some(end)
    } else {
        end.checked_add(alignment - over)
    }
}

/// An aligned offset is the first multiple of the alignment at or behind what it
/// was aligned from.
pub proof fn law_aligned(x: int, alignment: int)
    requires
        0 <= x,
        0 < alignment,
    ensures
        x <= aligned(x, alignment) < x + alignment,
        aligned(x, alignment) % alignment == 0,
{
    lemma_aligned(x, alignment);
}

/// An aligned offset is a multiple of the alignment, at or behind what it was
/// aligned from, and less than one alignment behind it.
proof fn lemma_aligned(x: int, alignment: int)
    requires
        0 <= x,
        0 < alignment,
    ensures
        x <= aligned(x, alignment) < x + alignment,
        aligned(x, alignment) % alignment == 0,
{
    vstd::arithmetic::div_mod::lemma_fundamental_div_mod(x, alignment);
    vstd::arithmetic::div_mod::lemma_mod_bound(x, alignment);
    if x % alignment != 0 {
        let k = x / alignment;
        assert(x + alignment - x % alignment == (k + 1) * alignment) by (nonlinear_arith)
            requires
                x == alignment * k + x % alignment,
        ;
        vstd::arithmetic::div_mod::lemma_mod_multiples_basic(k + 1, alignment);
    }
}

/// Sections start at multiples of the alignment, come one after the other
/// without overlapping, and end inside the file.
pub proof fn law_sections_are_apart(plan: Plan, alignment: int)
    requires
        alignment > 0,
        plan.packed(alignment),
    ensures
        plan.instances.start as int % alignment == 0,
        plan.materials.start as int % alignment == 0,
        plan.strings.start as int % alignment == 0,
        plan.vertices.start as int % alignment == 0,
        plan.indices.start as int % alignment == 0,
        plan.total as int % alignment == 0,
        plan.header.end() <= plan.instances.start,
        plan.instances.end() <= plan.materials.start,
        plan.materials.end() <= plan.strings.start,
        plan.strings.end() <= plan.vertices.start,
        plan.vertices.end() <= plan.indices.start,
        plan.indices.end() <= plan.total,
{
    lemma_aligned(plan.header.end(), alignment);
    lemma_aligned(plan.instances.end(), alignment);
    lemma_aligned(plan.materials.end(), alignment);
    lemma_aligned(plan.strings.end(), alignment);
    lemma_aligned(plan.vertices.end(), alignment);
    lemma_aligned(plan.indices.end(), alignment);
}

/// Byte `k` of a word, counted from its least significant end.
pub open spec fn byte_of(word: u32, k: int) -> u8 {
    if k == 0 {
        (word as int % 256) as u8
    } else if k == 1 {
        (word as int / 0x100 % 256) as u8
    } else if k == 2 {
        (word as int / 0x1_0000 % 256) as u8
    } else {
        (word as int / 0x100_0000) as u8
    }
}

/// Words as bytes, the least significant byte of each first.
pub open spec fn little_endian(words: Seq<u32>) -> Seq<u8> {
    Seq::new(4 * words.len(), |i: int| byte_of(words[i / 4], i % 4))
}

/// Words as bytes, the most significant byte of each first.
pub open spec fn big_endian(words: Seq<u32>) -> Seq<u8> {
    Seq::new(4 * words.len(), |i: int| byte_of(words[i / 4], 3 - i % 4))
}

/// Words as bytes, in one order of bytes or the other.
pub open spec fn laid_out(words: Seq<u32>, little: bool) -> Seq<u8> {
    if little {
        little_endian(words)
    } else {
        big_endian(words)
    }
}

/// Words as they lie in memory, on a machine of either kind.
pub open spec fn in_memory(words: Seq<u32>, bytes: Seq<u8>) -> bool {
    bytes == little_endian(words) || bytes == big_endian(words)
}

/// Words that follow others lie behind them, in the same order of bytes.
proof fn lemma_laid_out_apart(first: Seq<u32>, second: Seq<u32>, little: bool)
    ensures
        laid_out(first + second, little) == laid_out(first, little) + laid_out(second, little),
{
    let whole = first + second;
    let parts = laid_out(first, little) + laid_out(second, little);
    assert forall|i: int| 0 <= i < 4 * whole.len() implies #[trigger] laid_out(whole, little)[i]
        == parts[i] by {
        if i < 4 * first.len() {
            assert(whole[i / 4] == first[i / 4]);
        } else {
            let j = i - 4 * first.len();
            assert(i / 4 == j / 4 + first.len() && i % 4 == j % 4);
            assert(whole[i / 4] == second[j / 4]);
        }
    }
    assert(laid_out(whole, little) =~= parts);
}

/// The bytes of a word make the word again.
pub proof fn law_words_read_back(word: u32)
    ensures
        byte_of(word, 0) + 0x100 * byte_of(word, 1) + 0x1_0000 * byte_of(word, 2) + 0x100_0000 * byte_of(
            word,
            3,
        ) == word,
{
}

/// The words of some vertices, one after the other.
pub open spec fn vertex_words(vertices: Seq<Vertex>) -> Seq<u32> {
    Seq::new(8 * vertices.len(), |i: int| vertices[i / 8][i % 8])
}

/// `bytemuck::cast_slice` from words to bytes: the same memory, read byte by
/// byte. Four bytes to a word, in the order in which the machine keeps them,
/// which is the same for all words.
#[verifier::external_body]
fn bytes_of_words(words: &[u32]) -> (r: &[u8])
    ensures
        in_memory(words@, r@),
{
    bytemuck::cast_slice::<u32, u8>(words)
}

fn flatten(vertices: &Vec<Vertex>) -> (r: Vec<u32>)
    ensures
        r@ == vertex_words(vertices@),
{
    let mut words: Vec<u32> = Vec::new();
    let mut v: usize = 0;
    while v < vertices.len()
        invariant
            v <= vertices@.len(),
            words@ == vertex_words(vertices@.take(v as int)),
        decreases vertices@.len() - v,
    {
        let vertex: Vertex = vertices[v];
        let mut k: usize = 0;
        while k < 8
            invariant
                v < vertices@.len(),
                vertex == vertices@[v as int],
                k <= 8,
                words@.len() == 8 * v + k,
                forall|i: int| 0 <= i < 8 * v + k ==> (#[trigger] words@[i]) == vertices@[i / 8][i % 8],
            decreases 8 - k,
        {
            words.push(vertex[k]);
            k += 1;
        }
        v += 1;
        assert(words@ =~= vertex_words(vertices@.take(v as int)));
    }
    assert(vertices@.take(vertices@.len() as int) =~= vertices@);
    words
}

/// Add a section to a file that ends before it starts, with zeros between.
fn place(out: &mut Vec<u8>, section: Section, bytes: &[u8])
    requires
        old(out)@.len() <= section.start,
        bytes@.len() == section.len,
    ensures
        final(out)@.len() == section.end(),
        final(out)@.take(old(out)@.len() as int) == old(out)@,
        forall|i: int| old(out)@.len() <= i < section.start ==> final(out)@[i] == 0,
        final(out)@.subrange(section.start as int, section.end()) == bytes@,
{
    pad(out, section.start);
    let ghost padded = out@;
    out.extend_from_slice(bytes);
    assert(out@ =~= padded + bytes@);
    assert(out@.take(old(out)@.len() as int) =~= old(out)@) by {
        assert(padded.take(old(out)@.len() as int) =~= old(out)@);
    }
    assert(out@.subrange(section.start as int, section.end()) =~= bytes@);
}

/// Fill a file with zeros up to a length.
fn pad(out: &mut Vec<u8>, len: usize)
    requires
        old(out)@.len() <= len,
    ensures
        final(out)@ == old(out)@ + Seq::new((len - old(out)@.len()) as nat, |i: int| 0u8),
{
    while out.len() < len
        invariant
            old(out)@.len() <= out@.len() <= len,
            out@ == old(out)@ + Seq::new((out@.len() - old(out)@.len()) as nat, |i: int| 0u8),
        decreases len - out@.len(),
    {
        out.push(0);
        assert(out@ =~= old(out)@ + Seq::new((out@.len() - old(out)@.len()) as nat, |i: int| 0u8));
    }
}

/// A header says what a subset holds and where the plan puts it.
pub open spec fn says(header: Header, cut: &Subset, plan: &Plan, bake_hash: u64) -> bool {
    &&& header.bake_hash == bake_hash
    &&& header.scene_min == cut.scene_min
    &&& header.scene_max == cut.scene_max
    &&& header.instances_offset == plan.instances.start
    &&& header.instance_count == cut.instances@.len() as u32
    &&& header.material_count == cut.materials@.len() as u32
    &&& header.materials_offset == plan.materials.start
    &&& header.strings_offset == plan.strings.start
    &&& header.strings_len == cut.strings@.len()
    &&& header.vertices_offset == plan.vertices.start
    &&& header.vertex_count == cut.vertices@.len()
    &&& header.indices_offset == plan.indices.start
    &&& header.index_count == cut.indices@.len()
}

/// What the header of a subset says, laid out as planned.
pub fn header_of(cut: &Subset, plan: &Plan, bake_hash: u64) -> (r: Header)
    ensures
        says(r, cut, plan, bake_hash),
{
    Header {
        bake_hash,
        scene_min: cut.scene_min,
        scene_max: cut.scene_max,
        instances_offset: plan.instances.start as u64,
        instance_count: cut.instances.len() as u32,
        material_count: cut.materials.len() as u32,
        materials_offset: plan.materials.start as u64,
        strings_offset: plan.strings.start as u64,
        strings_len: cut.strings.len() as u64,
        vertices_offset: plan.vertices.start as u64,
        vertex_count: cut.vertices.len() as u64,
        indices_offset: plan.indices.start as u64,
        index_count: cut.indices.len() as u64,
    }
}

/// The plan has room for exactly what a subset holds.
pub open spec fn fits(cut: &Subset, plan: &Plan) -> bool {
    &&& plan.strings.len == cut.strings@.len()
    &&& plan.vertices.len == VERTEX_BYTES * cut.vertices@.len()
    &&& plan.indices.len == INDEX_BYTES * cut.indices@.len()
}

/// Lay out the file of a subset whose header, instances and materials take this
/// many bytes; none when it would be longer than the machine can count.
pub fn plan_for(
    cut: &Subset,
    alignment: usize,
    header: usize,
    instances: usize,
    materials: usize,
) -> (r: Option<Plan>)
    requires
        alignment > 0,
    ensures
        match r {
            Some(plan) => {
                &&& plan.packed(alignment as int)
                &&& plan.header.len == header
                &&& plan.instances.len == instances
                &&& plan.materials.len == materials
                &&& fits(cut, &plan)
            },
            None => Plan::starts(
                seq![
                    header as int,
                    instances as int,
                    materials as int,
                    cut.strings@.len() as int,
                    (VERTEX_BYTES * cut.vertices@.len()) as int,
                    (INDEX_BYTES * cut.indices@.len()) as int,
                ],
                alignment as int,
            )[6] > usize::MAX,
        },
{
    let vertices: Option<usize> = cut.vertices.len().checked_mul(VERTEX_BYTES);
    let indices: Option<usize> = cut.indices.len().checked_mul(INDEX_BYTES);
    match (vertices, indices) {
        (Some(vertices), Some(indices)) => Plan::new(
            alignment,
            header,
            instances,
            materials,
            cut.strings.len(),
            vertices,
            indices,
        ),
        _ => {
            proof {
                let a = alignment as int;
                let first = aligned(header as int, a);
                let second = aligned(first + instances, a);
                let third = aligned(second + materials, a);
                let fourth = aligned(third + cut.strings@.len(), a);
                let fifth = aligned(fourth + VERTEX_BYTES * cut.vertices@.len(), a);
                lemma_aligned(header as int, a);
                lemma_aligned(first + instances, a);
                lemma_aligned(second + materials, a);
                lemma_aligned(third + cut.strings@.len(), a);
                lemma_aligned(fourth + VERTEX_BYTES * cut.vertices@.len(), a);
                lemma_aligned(fifth + INDEX_BYTES * cut.indices@.len(), a);
            }
            None
        },
    }
}

/// Some bytes are the file of a subset, on a machine of one kind: every section
/// is where the plan puts it, and there are zeros between the sections.
pub open spec fn is_file_in(
    bytes: Seq<u8>,
    cut: &Subset,
    plan: &Plan,
    header: Seq<u8>,
    instances: Seq<u8>,
    materials: Seq<u8>,
    little: bool,
) -> bool {
    &&& bytes.len() == plan.total
    &&& bytes.subrange(plan.header.start as int, plan.header.end()) == header
    &&& bytes.subrange(plan.instances.start as int, plan.instances.end()) == instances
    &&& bytes.subrange(plan.materials.start as int, plan.materials.end()) == materials
    &&& bytes.subrange(plan.strings.start as int, plan.strings.end()) == cut.strings@
    &&& bytes.subrange(plan.vertices.start as int, plan.vertices.end()) == laid_out(
        vertex_words(cut.vertices@),
        little,
    )
    &&& bytes.subrange(plan.indices.start as int, plan.indices.end()) == laid_out(
        cut.indices@,
        little,
    )
    &&& forall|i: int| 0 <= i < plan.total && !plan.covers(i) ==> (#[trigger] bytes[i]) == 0
}

/// Some bytes are the file of a subset, with the words of its vertices and of
/// its indices in one order of bytes.
pub open spec fn is_file(
    bytes: Seq<u8>,
    cut: &Subset,
    plan: &Plan,
    header: Seq<u8>,
    instances: Seq<u8>,
    materials: Seq<u8>,
) -> bool {
    exists|little: bool| #[trigger]
        is_file_in(bytes, cut, plan, header, instances, materials, little)
}

/// Put the file of a subset together from what the plan lays out: the encoded
/// header, instances and materials, and the strings, vertices and indices as
/// they are.
pub fn to_bytes(
    cut: &Subset,
    plan: &Plan,
    alignment: usize,
    header: &[u8],
    instances: &[u8],
    materials: &[u8],
) -> (r: Vec<u8>)
    requires
        alignment > 0,
        plan.packed(alignment as int),
        fits(cut, plan),
        header@.len() == plan.header.len,
        instances@.len() == plan.instances.len,
        materials@.len() == plan.materials.len,
    ensures
        is_file(r@, cut, plan, header@, instances@, materials@),
{
    proof {
        law_sections_are_apart(*plan, alignment as int);
    }
    let mut words: Vec<u32> = flatten(&cut.vertices);
    words.extend_from_slice(cut.indices.as_slice());
    assert(words@ =~= vertex_words(cut.vertices@) + cut.indices@);
    let lying: &[u8] = bytes_of_words(words.as_slice());
    let ghost little = lying@ == little_endian(words@);
    proof {
        lemma_laid_out_apart(vertex_words(cut.vertices@), cut.indices@, little);
    }
    let (vertices, indices): (&[u8], &[u8]) = lying.split_at(plan.vertices.len);
    assert(vertices@ =~= laid_out(vertex_words(cut.vertices@), little));
    assert(indices@ =~= laid_out(cut.indices@, little));
    let mut out: Vec<u8> = Vec::new();
    place(&mut out, plan.header, header);
    let ghost one = out@;
    place(&mut out, plan.instances, instances);
    let ghost two = out@;
    place(&mut out, plan.materials, materials);
    let ghost three = out@;
    place(&mut out, plan.strings, cut.strings.as_slice());
    let ghost four = out@;
    place(&mut out, plan.vertices, vertices);
    let ghost five = out@;
    place(&mut out, plan.indices, indices);
    let ghost six = out@;
    pad(&mut out, plan.total);
    proof {
        let file = out@;
        assert(file.take(six.len() as int) =~= six);
        assert(file.take(five.len() as int) =~= six.take(five.len() as int));
        assert(file.take(four.len() as int) =~= five.take(four.len() as int));
        assert(file.take(three.len() as int) =~= four.take(three.len() as int));
        assert(file.take(two.len() as int) =~= three.take(two.len() as int));
        assert(file.take(one.len() as int) =~= two.take(one.len() as int));
        assert(file.subrange(plan.header.start as int, plan.header.end()) =~= one.subrange(
            plan.header.start as int,
            plan.header.end(),
        ));
        assert(file.subrange(plan.instances.start as int, plan.instances.end()) =~= two.subrange(
            plan.instances.start as int,
            plan.instances.end(),
        ));
        assert(file.subrange(plan.materials.start as int, plan.materials.end()) =~= three.subrange(
            plan.materials.start as int,
            plan.materials.end(),
        ));
        assert(file.subrange(plan.strings.start as int, plan.strings.end()) =~= four.subrange(
            plan.strings.start as int,
            plan.strings.end(),
        ));
        assert(file.subrange(plan.vertices.start as int, plan.vertices.end()) =~= five.subrange(
            plan.vertices.start as int,
            plan.vertices.end(),
        ));
        assert(file.subrange(plan.indices.start as int, plan.indices.end()) =~= six.subrange(
            plan.indices.start as int,
            plan.indices.end(),
        ));
        assert(is_file_in(file, cut, plan, header@, instances@, materials@, little));
    }
    out
}

/// The word that four bytes of a file hold, on a machine of either kind.
pub open spec fn word_at(bytes: Seq<u8>, at: int, little: bool) -> int {
    if little {
        bytes[at] + 0x100 * bytes[at + 1] + 0x1_0000 * bytes[at + 2] + 0x100_0000 * bytes[at + 3]
    } else {
        bytes[at + 3] + 0x100 * bytes[at + 2] + 0x1_0000 * bytes[at + 1] + 0x100_0000 * bytes[at]
    }
}

/// From `at` on, a file reads as these words, one after the other.
pub open spec fn reads_as(bytes: Seq<u8>, at: int, words: Seq<u32>, little: bool) -> bool {
    forall|i: int| 0 <= i < words.len() ==> word_at(bytes, at + 4 * i, little) == #[trigger] words[i]
}

/// A section of words reads back word by word.
proof fn lemma_words_at(bytes: Seq<u8>, section: Section, words: Seq<u32>, little: bool)
    requires
        section.end() <= bytes.len(),
        section.len == 4 * words.len(),
        bytes.subrange(section.start as int, section.end()) == laid_out(words, little),
    ensures
        reads_as(bytes, section.start as int, words, little),
{
    let part = bytes.subrange(section.start as int, section.end());
    assert forall|i: int| 0 <= i < words.len() implies word_at(bytes, section.start + 4 * i, little)
        == #[trigger] words[i] by {
        law_words_read_back(words[i]);
        assert(part[4 * i] == bytes[section.start + 4 * i]);
        assert(part[4 * i + 1] == bytes[section.start + 4 * i + 1]);
        assert(part[4 * i + 2] == bytes[section.start + 4 * i + 2]);
        assert(part[4 * i + 3] == bytes[section.start + 4 * i + 3]);
        assert((4 * i) / 4 == i && (4 * i) % 4 == 0);
        assert((4 * i + 1) / 4 == i && (4 * i + 1) % 4 == 1);
        assert((4 * i + 2) / 4 == i && (4 * i + 2) % 4 == 2);
        assert((4 * i + 3) / 4 == i && (4 * i + 3) % 4 == 3);
    }
}

/// A file gives back what was written: it starts with the header, and the header
/// leads to the instances, the materials, the strings, every word of every vertex
/// and every index, the words all in one order of bytes. The sections come in
/// that order, aligned, apart and inside the file, with zeros between them.
pub proof fn law_a_file_reads_back(
    bytes: Seq<u8>,
    cut: &Subset,
    plan: &Plan,
    alignment: int,
    bake_hash: u64,
    header: Header,
    header_bytes: Seq<u8>,
    instances: Seq<u8>,
    materials: Seq<u8>,
)
    requires
        alignment > 0,
        plan.packed(alignment),
        fits(cut, plan),
        says(header, cut, plan, bake_hash),
        is_file(bytes, cut, plan, header_bytes, instances, materials),
    ensures
        bytes.take(header_bytes.len() as int) == header_bytes,
        bytes.subrange(
            header.instances_offset as int,
            header.instances_offset + instances.len(),
        ) == instances,
        bytes.subrange(
            header.materials_offset as int,
            header.materials_offset + materials.len(),
        ) == materials,
        bytes.subrange(
            header.strings_offset as int,
            header.strings_offset + header.strings_len,
        ) == cut.strings@,
        exists|little: bool|
            {
                &&& #[trigger] reads_as(
                    bytes,
                    header.vertices_offset as int,
                    vertex_words(cut.vertices@),
                    little,
                )
                &&& reads_as(bytes, header.indices_offset as int, cut.indices@, little)
            },
        header_bytes.len() <= header.instances_offset,
        header.instances_offset + instances.len() <= header.materials_offset,
        header.materials_offset + materials.len() <= header.strings_offset,
        header.strings_offset + header.strings_len <= header.vertices_offset,
        header.vertices_offset + VERTEX_BYTES * header.vertex_count <= header.indices_offset,
        header.indices_offset + INDEX_BYTES * header.index_count <= bytes.len(),
        header.instances_offset as int % alignment == 0,
        header.materials_offset as int % alignment == 0,
        header.strings_offset as int % alignment == 0,
        header.vertices_offset as int % alignment == 0,
        header.indices_offset as int % alignment == 0,
        bytes.len() as int % alignment == 0,
        forall|i: int| 0 <= i < bytes.len() && !plan.covers(i) ==> (#[trigger] bytes[i]) == 0,
{
    law_sections_are_apart(*plan, alignment);
    let little = choose|little: bool| #[trigger]
        is_file_in(bytes, cut, plan, header_bytes, instances, materials, little);
    assert(header_bytes.len() == plan.header.len);
    assert(instances.len() == plan.instances.len);
    assert(materials.len() == plan.materials.len);
    assert(bytes.take(header_bytes.len() as int) =~= bytes.subrange(
        plan.header.start as int,
        plan.header.end(),
    ));
    lemma_words_at(bytes, plan.indices, cut.indices@, little);
    lemma_words_at(bytes, plan.vertices, vertex_words(cut.vertices@), little);
    assert(reads_as(bytes, header.vertices_offset as int, vertex_words(cut.vertices@), little));
}

/// Two subsets hold the same.
pub open spec fn same_contents(a: &Subset, b: &Subset) -> bool {
    &&& a.instances@.len() == b.instances@.len()
    &&& a.materials@ == b.materials@
    &&& a.strings@ == b.strings@
    &&& a.vertices@ == b.vertices@
    &&& a.indices@ == b.indices@
    &&& a.scene_min@ == b.scene_min@
    &&& a.scene_max@ == b.scene_max@
}

/// Subsets that hold the same have the same plan and the same header.
pub proof fn law_equal_subsets_have_equal_headers(
    a: &Subset,
    b: &Subset,
    plan: Plan,
    other: Plan,
    alignment: int,
    bake_hash: u64,
    header: Header,
    other_header: Header,
)
    requires
        same_contents(a, b),
        plan.packed(alignment),
        other.packed(alignment),
        fits(a, &plan),
        fits(b, &other),
        plan.header.len == other.header.len,
        plan.instances.len == other.instances.len,
        plan.materials.len == other.materials.len,
        says(header, a, &plan, bake_hash),
        says(other_header, b, &other, bake_hash),
    ensures
        plan == other,
        header == other_header,
{
    assert(a.scene_min =~= b.scene_min);
    assert(a.scene_max =~= b.scene_max);
}

/// Two files of subsets that hold the same, with their records encoded alike, are
/// as long as each other and have the same bytes outside the vertices and the
/// indices. Written on machines of one kind they are the same, byte for byte.
pub proof fn law_equal_subsets_make_equal_files(
    a: &Subset,
    b: &Subset,
    plan: &Plan,
    alignment: int,
    header: Seq<u8>,
    instances: Seq<u8>,
    materials: Seq<u8>,
    first: Seq<u8>,
    second: Seq<u8>,
    little: bool,
    other: bool,
)
    requires
        alignment > 0,
        same_contents(a, b),
        plan.packed(alignment),
        is_file_in(first, a, plan, header, instances, materials, little),
        is_file_in(second, b, plan, header, instances, materials, other),
    ensures
        first.len() == second.len(),
        forall|i: int|
            0 <= i < first.len() && !plan.vertices.covers(i) && !plan.indices.covers(i) ==> (
            #[trigger] first[i]) == second[i],
        little == other ==> first == second,
{
    law_sections_are_apart(*plan, alignment);
    lemma_sections_agree(first, second, plan.header);
    lemma_sections_agree(first, second, plan.instances);
    lemma_sections_agree(first, second, plan.materials);
    lemma_sections_agree(first, second, plan.strings);
    assert forall|i: int|
        0 <= i < first.len() && !plan.vertices.covers(i) && !plan.indices.covers(i) implies (
    #[trigger] first[i]) == second[i] by {
        if !plan.covers(i) {
            assert(first[i] == 0 && second[i] == 0);
        }
    }
    if little == other {
        lemma_sections_agree(first, second, plan.vertices);
        lemma_sections_agree(first, second, plan.indices);
        assert(first =~= second);
    }
}

/// Two files with the same section have the same bytes in it.
proof fn lemma_sections_agree(first: Seq<u8>, second: Seq<u8>, section: Section)
    requires
        section.end() <= first.len(),
        section.end() <= second.len(),
        first.subrange(section.start as int, section.end()) == second.subrange(
            section.start as int,
            section.end(),
        ),
    ensures
        forall|i: int| section.covers(i) ==> #[trigger] first[i] == second[i],
{
    assert forall|i: int| section.covers(i) implies #[trigger] first[i] == second[i] by {
        let part = first.subrange(section.start as int, section.end());
        assert(part[i - section.start] == first[i]);
        assert(part[i - section.start] == second[i]);
    }
}

/// No more room is left between sections than it takes to align the next one.
pub proof fn law_sections_are_close(plan: Plan, alignment: int)
    requires
        alignment > 0,
        plan.packed(alignment),
    ensures
        plan.header.start == 0,
        plan.instances.start < plan.header.len + alignment,
        plan.materials.start < plan.instances.start + plan.instances.len + alignment,
        plan.strings.start < plan.materials.start + plan.materials.len + alignment,
        plan.vertices.start < plan.strings.start + plan.strings.len + alignment,
        plan.indices.start < plan.vertices.start + plan.vertices.len + alignment,
        plan.total < plan.indices.start + plan.indices.len + alignment,
{
    lemma_aligned(plan.header.end(), alignment);
    lemma_aligned(plan.instances.end(), alignment);
    lemma_aligned(plan.materials.end(), alignment);
    lemma_aligned(plan.strings.end(), alignment);
    lemma_aligned(plan.vertices.end(), alignment);
    lemma_aligned(plan.indices.end(), alignment);
}

/// The plan has a byte for each byte of the strings, thirty-two for each vertex
/// and four for each index.
pub proof fn law_a_plan_has_room_for_the_subset(cut: &Subset, plan: &Plan)
    requires
        fits(cut, plan),
    ensures
        plan.strings.len == cut.strings@.len(),
        plan.vertices.len == 32 * cut.vertices@.len(),
        plan.indices.len == 4 * cut.indices@.len(),
{
}

/// The header says which bake the scene came from, the box of what is kept, how
/// much there is of everything, and where the plan puts it.
pub proof fn law_the_header_says_what_is_there(header: Header, cut: &Subset, plan: &Plan, bake_hash: u64)
    requires
        says(header, cut, plan, bake_hash),
        cut.instances@.len() <= u32::MAX,
        cut.materials@.len() <= u32::MAX,
    ensures
        header.bake_hash == bake_hash,
        header.scene_min == cut.scene_min,
        header.scene_max == cut.scene_max,
        header.instance_count == cut.instances@.len(),
        header.material_count == cut.materials@.len(),
        header.strings_len == cut.strings@.len(),
        header.vertex_count == cut.vertices@.len(),
        header.index_count == cut.indices@.len(),
        header.instances_offset == plan.instances.start,
        header.materials_offset == plan.materials.start,
        header.strings_offset == plan.strings.start,
        header.vertices_offset == plan.vertices.start,
        header.indices_offset == plan.indices.start,
{
}

/// The words of some vertices are the eight words of each, one vertex after the
/// other.
pub proof fn law_vertices_are_words(vertices: Seq<Vertex>, v: int, k: int)
    requires
        0 <= v < vertices.len(),
        0 <= k < 8,
    ensures
        vertex_words(vertices).len() == 8 * vertices.len(),
        vertex_words(vertices)[8 * v + k] == vertices[v][k],
{
}

/// A layout ends less than one alignment for each section behind what the
/// sections take together, so it is given up only for want of room.
pub proof fn law_a_layout_is_as_long_as_it_must_be(lengths: Seq<int>, alignment: int)
    requires
        alignment > 0,
        lengths.len() == 6,
        forall|i: int| 0 <= i < 6 ==> (#[trigger] lengths[i]) >= 0,
    ensures
        ({
            let end = Plan::starts(lengths, alignment)[6];
            let sum = lengths[0] + lengths[1] + lengths[2] + lengths[3] + lengths[4] + lengths[5];
            &&& sum <= end < sum + 6 * alignment
            &&& end % alignment == 0
        }),
{
    let a = alignment;
    let first = aligned(lengths[0], a);
    let second = aligned(first + lengths[1], a);
    let third = aligned(second + lengths[2], a);
    let fourth = aligned(third + lengths[3], a);
    let fifth = aligned(fourth + lengths[4], a);
    lemma_aligned(lengths[0], a);
    lemma_aligned(first + lengths[1], a);
    lemma_aligned(second + lengths[2], a);
    lemma_aligned(third + lengths[3], a);
    lemma_aligned(fourth + lengths[4], a);
    lemma_aligned(fifth + lengths[5], a);
}

/// Whatever lies in no section of a file is zero.
pub proof fn law_between_the_sections_there_are_zeros(
    bytes: Seq<u8>,
    cut: &Subset,
    plan: &Plan,
    header: Seq<u8>,
    instances: Seq<u8>,
    materials: Seq<u8>,
    i: int,
)
    requires
        is_file(bytes, cut, plan, header, instances, materials),
        0 <= i < bytes.len(),
        !(plan.header.start <= i < plan.header.start + plan.header.len),
        !(plan.instances.start <= i < plan.instances.start + plan.instances.len),
        !(plan.materials.start <= i < plan.materials.start + plan.materials.len),
        !(plan.strings.start <= i < plan.strings.start + plan.strings.len),
        !(plan.vertices.start <= i < plan.vertices.start + plan.vertices.len),
        !(plan.indices.start <= i < plan.indices.start + plan.indices.len),
    ensures
        bytes[i] == 0,
{
    let little = choose|little: bool| #[trigger]
        is_file_in(bytes, cut, plan, header, instances, materials, little);
    assert(!plan.covers(i));
}

} // verus!
