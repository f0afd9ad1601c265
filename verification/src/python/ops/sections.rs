//! Sections of a sequence and their state blocks, as Python objects.
use crate::error::{fails, ErrorKind, PyError};
use crate::ops::command::{copy_name, option_view, RasterMode, SectionType};
use crate::ops::container::{selected, OpsModel};
use crate::ops::section::{
    copy_indices, BlockModel, OpsSection, OpsSectionRange, SectionModel, StateBlock,
};
use crate::python::ops::container::PyOps;
use crate::text::{append_bracketed, append_optional, bracketed, joined, optional};
use vstd::prelude::*;
use vstd::string::{StrSliceExecFns, StringExecFns};

verus! {

/// A section of a sequence.
#[derive(Debug)]
pub struct PyOpsSection(pub OpsSection);

/// A section of a sequence whose contents are contiguous.
#[derive(Debug)]
pub struct PyOpsSectionRange(pub OpsSectionRange);

/// A state block.
#[derive(Debug)]
pub struct PyStateBlock {
    pub name: Option<String>,
    pub marker_indices: Vec<usize>,
    pub content_indices: Vec<usize>,
}

impl View for PyOpsSection {
    type V = SectionModel;

    open spec fn view(&self) -> SectionModel {
        self.0@
    }
}

impl View for PyOpsSectionRange {
    type V = SectionModel;

    open spec fn view(&self) -> SectionModel {
        self.0@
    }
}

impl View for PyStateBlock {
    type V = BlockModel;

    open spec fn view(&self) -> BlockModel {
        BlockModel {
            name: option_view(self.name),
            marker_indices: self.marker_indices@,
            content_indices: self.content_indices@,
        }
    }
}

impl Clone for PyOpsSection {
    fn clone(&self) -> (r: PyOpsSection)
        ensures
            r@ == self@,
    {
        PyOpsSection(self.0.clone())
    }
}

impl Clone for PyOpsSectionRange {
    fn clone(&self) -> (r: PyOpsSectionRange)
        ensures
            r@ == self@,
    {
        PyOpsSectionRange(self.0.clone())
    }
}

/// The name of a section type.
pub open spec fn section_type_name(t: SectionType) -> Seq<char> {
    match t {
        SectionType::VectorOutline => "VectorOutline"@,
        SectionType::RasterFill => "RasterFill"@,
    }
}

/// How a section is shown: `title`, then its fields. `mode_name` is the name of its raster mode.
pub open spec fn section_text(
    title: Seq<char>,
    s: SectionModel,
    mode_name: Seq<char>,
) -> Seq<char> {
    title + "(section_type="@ + optional(
        match s.section_type {
            Some(t) => Some(section_type_name(t)),
            None => None,
        },
    ) + ", raster_mode="@ + optional(
        match s.raster_mode {
            Some(_) => Some(mode_name),
            None => None,
        },
    ) + ", marker_indices="@ + bracketed(s.marker_indices) + ", content_indices="@ + bracketed(
        s.content_indices,
    ) + ")"@
}

fn show_section(
    title: &str,
    section_type: Option<SectionType>,
    raster_mode: Option<RasterMode>,
    marker_indices: &Vec<usize>,
    content_indices: &Vec<usize>,
    mode_name: &str,
) -> (r: String)
    ensures
        r@ == section_text(
            title@,
            SectionModel {
                section_type,
                raster_mode,
                marker_indices: marker_indices@,
                content_indices: content_indices@,
            },
            mode_name@,
        ),
{
    let mut out = title.to_string();
    out.append("(section_type=");
    let shown_type = match section_type {
        Some(SectionType::VectorOutline) => Some("VectorOutline"),
        Some(SectionType::RasterFill) => Some("RasterFill"),
        None => None,
    };
    append_optional(&mut out, shown_type);
    out.append(", raster_mode=");
    let shown_mode = match raster_mode {
        Some(_) => Some(mode_name),
        None => None,
    };
    append_optional(&mut out, shown_mode);
    out.append(", marker_indices=");
    append_bracketed(&mut out, marker_indices);
    out.append(", content_indices=");
    append_bracketed(&mut out, content_indices);
    out.append(")");
    out
}

/// Whether a name fits a pattern: one that ends in `*` is fitted by every name that starts with
/// the rest of it, any other by itself alone. Without a name there is no fit.
pub open spec fn name_fits(pattern: Seq<char>, name: Option<Seq<char>>) -> bool {
    match name {
        None => false,
        Some(n) => if pattern.len() > 0 && pattern.last() == '*' {
            pattern.drop_last().is_prefix_of(n)
        } else {
            n == pattern
        },
    }
}

/// Whether a name fits a pattern.
pub fn name_matches(pattern: &str, name: Option<&str>) -> (r: bool)
    ensures
        r == name_fits(
            pattern@,
            match name {
                Some(n) => Some(n@),
                None => None,
            },
        ),
        name is None ==> !r,
        name matches Some(n) ==> if pattern@.len() > 0 && pattern@.last() == '*' {
            r <==> exists|suffix: Seq<char>| #[trigger] (pattern@.drop_last() + suffix) == n@
        } else {
            r <==> n@ == pattern@
        },
{
    proof {
        if let Some(n) = name {
            let stem = pattern@.drop_last();
            if stem.is_prefix_of(n@) {
                assert(stem + n@.skip(stem.len() as int) =~= n@);
            }
            assert forall|suffix: Seq<char>| #[trigger] (stem + suffix) == n@ implies
                stem.is_prefix_of(n@) by {
                assert(stem =~= n@.subrange(0, stem.len() as int));
            }
        }
    }
    match name {
        None => false,
        Some(n) => {
            let count: usize = pattern.unicode_len();
            if count > 0 && pattern.get_char(count - 1) == '*' {
                let stem = pattern.substring_char(0, count - 1);
                proof {
                    assert(stem@ =~= pattern@.drop_last());
                }
                if n.unicode_len() < count - 1 {
                    return false;
                }
                let head = n.substring_char(0, count - 1);
                proof {
                    if pattern@.drop_last().is_prefix_of(n@) {
                        assert(head@ =~= stem@);
                    }
                    if head@ == stem@ {
                        assert(pattern@.drop_last() =~= n@.subrange(
                            0,
                            pattern@.drop_last().len() as int,
                        ));
                    }
                }
                head.to_string() == stem.to_string()
            } else {
                n.to_string() == pattern.to_string()
            }
        },
    }
}

/// The views of sections.
pub open spec fn section_views(sections: Seq<OpsSection>) -> Seq<SectionModel> {
    Seq::new(sections.len(), |i: int| sections[i]@)
}

/// The views of sections that are Python objects.
pub open spec fn object_views(sections: Seq<PyOpsSection>) -> Seq<SectionModel> {
    Seq::new(sections.len(), |i: int| sections[i]@)
}

/// The views of state blocks.
pub open spec fn block_views(blocks: Seq<StateBlock>) -> Seq<BlockModel> {
    Seq::new(blocks.len(), |i: int| blocks[i]@)
}

/// The views of state blocks that are Python objects.
pub open spec fn block_object_views(blocks: Seq<PyStateBlock>) -> Seq<BlockModel> {
    Seq::new(blocks.len(), |i: int| blocks[i]@)
}

/// Whether all indices are those of commands.
pub open spec fn all_within(indices: Seq<usize>, len: nat) -> bool {
    forall|k: int| 0 <= k < indices.len() ==> #[trigger] indices[k] < len
}

fn block_object(b: &StateBlock) -> (r: PyStateBlock)
    ensures
        r@ == b@,
{
    PyStateBlock {
        name: copy_name(&b.name),
        marker_indices: copy_indices(&b.marker_indices),
        content_indices: copy_indices(&b.content_indices),
    }
}

/// The state blocks that a search found, as Python objects. A search that failed is a runtime
/// error with its message.
pub fn state_block_objects(found: Result<Vec<StateBlock>, String>) -> (r: Result<
    Vec<PyStateBlock>,
    PyError,
>)
    ensures
        match found {
            Ok(blocks) => r is Ok && block_object_views(r->Ok_0@) == block_views(blocks@),
            Err(message) => fails(r, ErrorKind::Runtime, message@),
        },
{
    match found {
        Err(message) => Err(PyError { kind: ErrorKind::Runtime, message }),
        Ok(blocks) => {
            let mut r: Vec<PyStateBlock> = Vec::new();
            let mut i: usize = 0;
            while i < blocks.len()
                invariant
                    i <= blocks.len(),
                    block_object_views(r@) == block_views(blocks@).take(i as int),
                decreases blocks.len() - i,
            {
                let ghost before = r@;
                let object = block_object(&blocks[i]);
                r.push(object);
                proof {
                    assert(block_object_views(r@) =~= block_object_views(before).push(object@));
                    assert(block_object_views(r@) =~= block_views(blocks@).take(i + 1));
                }
                i += 1;
            }
            proof {
                assert(block_views(blocks@).take(i as int) =~= block_views(blocks@));
            }
            Ok(r)
        },
    }
}

/// Those of the state blocks that a search found whose names fit a pattern, as Python objects.
/// A search that failed is a runtime error with its message.
pub fn state_blocks_by_name(found: Result<Vec<StateBlock>, String>, pattern: &str) -> (r: Result<
    Vec<PyStateBlock>,
    PyError,
>)
    ensures
        match found {
            Ok(blocks) => r is Ok && block_object_views(r->Ok_0@) == block_views(blocks@).filter(
                |b: BlockModel| name_fits(pattern@, b.name),
            ),
            Err(message) => fails(r, ErrorKind::Runtime, message@),
        },
{
    match found {
        Err(message) => Err(PyError { kind: ErrorKind::Runtime, message }),
        Ok(blocks) => {
            let ghost fit = |b: BlockModel| name_fits(pattern@, b.name);
            let ghost all = block_views(blocks@);
            let mut r: Vec<PyStateBlock> = Vec::new();
            let mut i: usize = 0;
            proof {
                reveal(Seq::filter);
                assert(all.take(0).filter(fit) =~= block_object_views(r@));
            }
            while i < blocks.len()
                invariant
                    i <= blocks.len(),
                    all == block_views(blocks@),
                    fit == |b: BlockModel| name_fits(pattern@, b.name),
                    block_object_views(r@) == all.take(i as int).filter(fit),
                decreases blocks.len() - i,
            {
                let ghost before = r@;
                let name = match &blocks[i].name {
                    Some(n) => Some(n.as_str()),
                    None => None,
                };
                proof {
                    lemma_filter_step(all, fit, i as int);
                }
                if name_matches(pattern, name) {
                    let object = block_object(&blocks[i]);
                    r.push(object);
                    proof {
                        assert(block_object_views(r@) =~= block_object_views(before).push(object@));
                    }
                }
                i += 1;
            }
            proof {
                assert(all.take(i as int) =~= all);
            }
            Ok(r)
        },
    }
}

/// A filter keeps one more item exactly if it fits.
proof fn lemma_filter_step<T>(s: Seq<T>, fit: spec_fn(T) -> bool, i: int)
    requires
        0 <= i < s.len(),
    ensures
        s.take(i + 1).filter(fit) == if fit(s[i]) {
            s.take(i).filter(fit).push(s[i])
        } else {
            s.take(i).filter(fit)
        },
{
    reveal(Seq::filter);
    assert(s.take(i + 1).drop_last() =~= s.take(i));
}

/// Those of the sections whose type is the given one, as Python objects.
pub fn sections_by_type(sections: &Vec<OpsSection>, section_type: SectionType) -> (r: Vec<
    PyOpsSection,
>)
    ensures
        object_views(r@) == section_views(sections@).filter(
            |s: SectionModel| s.section_type == Some(section_type),
        ),
{
    let ghost fit = |s: SectionModel| s.section_type == Some(section_type);
    let ghost all = section_views(sections@);
    let mut r: Vec<PyOpsSection> = Vec::new();
    let mut i: usize = 0;
    proof {
        reveal(Seq::filter);
        assert(all.take(0).filter(fit) =~= object_views(r@));
    }
    while i < sections.len()
        invariant
            i <= sections.len(),
            all == section_views(sections@),
            fit == |s: SectionModel| s.section_type == Some(section_type),
            object_views(r@) == all.take(i as int).filter(fit),
        decreases sections.len() - i,
    {
        let ghost before = r@;
        proof {
            lemma_filter_step(all, fit, i as int);
        }
        let keep = match sections[i].section_type {
            Some(t) => t == section_type,
            None => false,
        };
        if keep {
            let object = PyOpsSection(sections[i].clone());
            r.push(object);
            proof {
                assert(object_views(r@) =~= object_views(before).push(object@));
            }
        }
        i += 1;
    }
    proof {
        assert(all.take(i as int) =~= all);
    }
    r
}

/// Those of the sections whose raster mode is the given one, as Python objects.
pub fn sections_by_mode(sections: &Vec<OpsSection>, raster_mode: RasterMode) -> (r: Vec<
    PyOpsSection,
>)
    ensures
        object_views(r@) == section_views(sections@).filter(
            |s: SectionModel| s.raster_mode == Some(raster_mode),
        ),
{
    let ghost fit = |s: SectionModel| s.raster_mode == Some(raster_mode);
    let ghost all = section_views(sections@);
    let mut r: Vec<PyOpsSection> = Vec::new();
    let mut i: usize = 0;
    proof {
        reveal(Seq::filter);
        assert(all.take(0).filter(fit) =~= object_views(r@));
    }
    while i < sections.len()
        invariant
            i <= sections.len(),
            all == section_views(sections@),
            fit == |s: SectionModel| s.raster_mode == Some(raster_mode),
            object_views(r@) == all.take(i as int).filter(fit),
        decreases sections.len() - i,
    {
        let ghost before = r@;
        proof {
            lemma_filter_step(all, fit, i as int);
        }
        let keep = match sections[i].raster_mode {
            Some(m) => m == raster_mode,
            None => false,
        };
        if keep {
            let object = PyOpsSection(sections[i].clone());
            r.push(object);
            proof {
                assert(object_views(r@) =~= object_views(before).push(object@));
            }
        }
        i += 1;
    }
    proof {
        assert(all.take(i as int) =~= all);
    }
    r
}

impl PyOpsSection {
    /// What the section produces, if anything.
    pub fn section_type(&self) -> (r: Option<SectionType>)
        ensures
            r == self@.section_type,
    {
        self.0.section_type
    }

    /// The raster mode of the section, if it has one.
    pub fn raster_mode(&self) -> (r: Option<RasterMode>)
        ensures
            r == self@.raster_mode,
    {
        self.0.raster_mode
    }

    /// The indices of the markers of the section.
    pub fn marker_indices(&self) -> (r: Vec<usize>)
        ensures
            r@ == self@.marker_indices,
    {
        copy_indices(&self.0.marker_indices)
    }

    /// The indices of the commands that belong to the section.
    pub fn content_indices(&self) -> (r: Vec<usize>)
        ensures
            r@ == self@.content_indices,
    {
        copy_indices(&self.0.content_indices)
    }

    /// A new sequence of the commands that belong to the section.
    pub fn content(&self, ops: &PyOps) -> (r: PyOps)
        requires
            all_within(self@.content_indices, ops@.commands.len()),
        ensures
            r@ == OpsModel::fresh().extended(selected(ops@.commands, self@.content_indices)),
    {
        ops.sub_ops(&self.0.content_indices)
    }

    /// A new sequence of the commands that belong to a state block.
    pub fn state_block_content(&self, ops: &PyOps, block: &PyStateBlock) -> (r: PyOps)
        requires
            all_within(block@.content_indices, ops@.commands.len()),
        ensures
            r@ == OpsModel::fresh().extended(selected(ops@.commands, block@.content_indices)),
    {
        ops.sub_ops(&block.content_indices)
    }

    /// The section as text; `mode_name` is the name of its raster mode.
    pub fn __repr__(&self, mode_name: &str) -> (r: String)
        ensures
            r@ == section_text("OpsSection"@, self@, mode_name@),
    {
        show_section(
            "OpsSection",
            self.0.section_type,
            self.0.raster_mode,
            &self.0.marker_indices,
            &self.0.content_indices,
            mode_name,
        )
    }
}

impl PyOpsSectionRange {
    /// What the section produces, if anything.
    pub fn section_type(&self) -> (r: Option<SectionType>)
        ensures
            r == self@.section_type,
    {
        self.0.section_type
    }

    /// The raster mode of the section, if it has one.
    pub fn raster_mode(&self) -> (r: Option<RasterMode>)
        ensures
            r == self@.raster_mode,
    {
        self.0.raster_mode
    }

    /// The indices of the markers of the section.
    pub fn marker_indices(&self) -> (r: Vec<usize>)
        ensures
            r@ == self@.marker_indices,
    {
        copy_indices(&self.0.marker_indices)
    }

    /// The indices of the commands that belong to the section.
    pub fn content_indices(&self) -> (r: Vec<usize>)
        ensures
            r@ == self@.content_indices,
    {
        copy_indices(&self.0.content_indices)
    }

    /// A new sequence of the commands that belong to the section.
    pub fn content(&self, ops: &PyOps) -> (r: PyOps)
        requires
            all_within(self@.content_indices, ops@.commands.len()),
        ensures
            r@ == OpsModel::fresh().extended(selected(ops@.commands, self@.content_indices)),
    {
        ops.sub_ops(&self.0.content_indices)
    }

    /// The section as text; `mode_name` is the name of its raster mode.
    pub fn __repr__(&self, mode_name: &str) -> (r: String)
        ensures
            r@ == section_text("OpsSectionRange"@, self@, mode_name@),
    {
        show_section(
            "OpsSectionRange",
            self.0.section_type,
            self.0.raster_mode,
            &self.0.marker_indices,
            &self.0.content_indices,
            mode_name,
        )
    }
}

/// A pattern that ends in a star is fitted by every name that starts with what precedes the
/// star, whatever follows in the name and however long it is, and by no other name.
pub proof fn law_star_is_any_suffix(stem: Seq<char>, suffix: Seq<char>, name: Seq<char>)
    ensures
        name_fits(stem.push('*'), Some(stem + suffix)),
        name_fits(stem.push('*'), Some(name)) ==> name.len() >= stem.len() && name
            == stem + name.skip(stem.len() as int),
        name_fits(stem.push('*'), Some(name)) <==> exists|k: int|
            0 <= k <= name.len() && #[trigger] name.take(k) == stem,
        !name_fits(stem.push('*'), None),
{
    let pattern = stem.push('*');
    assert(pattern.drop_last() =~= stem);
    assert(stem =~= (stem + suffix).subrange(0, stem.len() as int));
    if name_fits(pattern, Some(name)) {
        assert(name =~= stem + name.skip(stem.len() as int));
        assert(name.take(stem.len() as int) =~= stem);
    }
    if exists|k: int| 0 <= k <= name.len() && #[trigger] name.take(k) == stem {
        let k = choose|k: int| 0 <= k <= name.len() && #[trigger] name.take(k) == stem;
        assert(k == stem.len());
        assert(stem =~= name.subrange(0, stem.len() as int));
    }
}

/// A pattern without a star at its end is fitted by the same name alone.
pub proof fn law_plain_pattern_is_exact(pattern: Seq<char>, name: Seq<char>)
    requires
        pattern.len() == 0 || pattern.last() != '*',
    ensures
        name_fits(pattern, Some(name)) <==> name == pattern,
        !name_fits(pattern, None),
{
}

/// A section is shown by its title and, in brackets, its type, its raster mode, the indices of
/// its markers and those of its contents; a type or a mode that is not there is shown as `None`.
pub proof fn law_section_text(title: Seq<char>, s: SectionModel, mode_name: Seq<char>)
    ensures
        ({
            let kind = match s.section_type {
                Some(SectionType::VectorOutline) => "Some("@ + "VectorOutline"@ + ")"@,
                Some(SectionType::RasterFill) => "Some("@ + "RasterFill"@ + ")"@,
                None => "None"@,
            };
            let mode = if s.raster_mode is Some {
                "Some("@ + mode_name + ")"@
            } else {
                "None"@
            };
            let markers = "["@ + joined(s.marker_indices) + "]"@;
            let contents = "["@ + joined(s.content_indices) + "]"@;
            section_text(title, s, mode_name) == title + "(section_type="@ + kind
                + ", raster_mode="@ + mode + ", marker_indices="@ + markers
                + ", content_indices="@ + contents + ")"@
        }),
{
}

/// The object for a section shows what the section is, and that for a state block its name and
/// its indices; lists of them keep number and order.
pub proof fn law_object_models(
    s: PyOpsSection,
    r: PyOpsSectionRange,
    b: PyStateBlock,
    sections: Seq<OpsSection>,
    objects: Seq<PyOpsSection>,
    blocks: Seq<StateBlock>,
    block_objects: Seq<PyStateBlock>,
)
    ensures
        s@.section_type == s.0.section_type && s@.raster_mode == s.0.raster_mode,
        s@.marker_indices == s.0.marker_indices@ && s@.content_indices == s.0.content_indices@,
        r@.section_type == r.0.section_type && r@.raster_mode == r.0.raster_mode,
        r@.marker_indices == r.0.marker_indices@ && r@.content_indices == r.0.content_indices@,
        b@.marker_indices == b.marker_indices@ && b@.content_indices == b.content_indices@,
        b@.name is Some <==> b.name is Some,
        b.name is Some ==> b@.name->Some_0 == b.name->Some_0@,
        section_views(sections).len() == sections.len(),
        forall|k: int|
            0 <= k < sections.len() ==> #[trigger] section_views(sections)[k] == sections[k]@,
        object_views(objects).len() == objects.len(),
        forall|k: int|
            0 <= k < objects.len() ==> #[trigger] object_views(objects)[k] == objects[k]@,
        block_views(blocks).len() == blocks.len(),
        forall|k: int| 0 <= k < blocks.len() ==> #[trigger] block_views(blocks)[k] == blocks[k]@,
        block_object_views(block_objects).len() == block_objects.len(),
        forall|k: int|
            0 <= k < block_objects.len() ==> #[trigger] block_object_views(block_objects)[k]
                == block_objects[k]@,
{
}

} // verus!
