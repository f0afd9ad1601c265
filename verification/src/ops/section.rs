//! Sections of a sequence, and the state blocks inside them.
use crate::ops::command::{option_view, RasterMode, SectionType};
use vstd::prelude::*;

verus! {

/// A section: what it produces, and the indices of its markers and of its contents.
#[derive(Debug)]
pub struct OpsSection {
    pub section_type: Option<SectionType>,
    pub raster_mode: Option<RasterMode>,
    pub marker_indices: Vec<usize>,
    pub content_indices: Vec<usize>,
}

/// A section whose contents are contiguous.
#[derive(Debug)]
pub struct OpsSectionRange {
    pub section_type: Option<SectionType>,
    pub raster_mode: Option<RasterMode>,
    pub marker_indices: Vec<usize>,
    pub content_indices: Vec<usize>,
}

/// A state block: its name, and the indices of its markers and of its contents.
#[derive(Debug)]
pub struct StateBlock {
    pub name: Option<String>,
    pub marker_indices: Vec<usize>,
    pub content_indices: Vec<usize>,
}

/// What a section is.
pub struct SectionModel {
    pub section_type: Option<SectionType>,
    pub raster_mode: Option<RasterMode>,
    pub marker_indices: Seq<usize>,
    pub content_indices: Seq<usize>,
}

/// What a state block is.
pub struct BlockModel {
    pub name: Option<Seq<char>>,
    pub marker_indices: Seq<usize>,
    pub content_indices: Seq<usize>,
}

impl View for OpsSection {
    type V = SectionModel;

    open spec fn view(&self) -> SectionModel {
        SectionModel {
            section_type: self.section_type,
            raster_mode: self.raster_mode,
            marker_indices: self.marker_indices@,
            content_indices: self.content_indices@,
        }
    }
}

impl View for OpsSectionRange {
    type V = SectionModel;

    open spec fn view(&self) -> SectionModel {
        SectionModel {
            section_type: self.section_type,
            raster_mode: self.raster_mode,
            marker_indices: self.marker_indices@,
            content_indices: self.content_indices@,
        }
    }
}

impl View for StateBlock {
    type V = BlockModel;

    open spec fn view(&self) -> BlockModel {
        BlockModel {
            name: option_view(self.name),
            marker_indices: self.marker_indices@,
            content_indices: self.content_indices@,
        }
    }
}

/// Copies a list of indices.
pub fn copy_indices(list: &Vec<usize>) -> (r: Vec<usize>)
    ensures
        r@ == list@,
{
    let r = list.clone();
    proof {
        assert(r@ =~= list@);
    }
    r
}

impl Clone for OpsSection {
    fn clone(&self) -> (r: OpsSection)
        ensures
            r@ == self@,
    {
        OpsSection {
            section_type: self.section_type,
            raster_mode: self.raster_mode,
            marker_indices: copy_indices(&self.marker_indices),
            content_indices: copy_indices(&self.content_indices),
        }
    }
}

impl Clone for OpsSectionRange {
    fn clone(&self) -> (r: OpsSectionRange)
        ensures
            r@ == self@,
    {
        OpsSectionRange {
            section_type: self.section_type,
            raster_mode: self.raster_mode,
            marker_indices: copy_indices(&self.marker_indices),
            content_indices: copy_indices(&self.content_indices),
        }
    }
}

/// The model of a section or of a state block holds every part of it.
pub proof fn law_section_models(s: OpsSection, r: OpsSectionRange, b: StateBlock)
    ensures
        s@.section_type == s.section_type && s@.raster_mode == s.raster_mode,
        s@.marker_indices == s.marker_indices@ && s@.content_indices == s.content_indices@,
        r@.section_type == r.section_type && r@.raster_mode == r.raster_mode,
        r@.marker_indices == r.marker_indices@ && r@.content_indices == r.content_indices@,
        b@.marker_indices == b.marker_indices@ && b@.content_indices == b.content_indices@,
        b@.name is Some <==> b.name is Some,
        b.name is Some ==> b@.name->Some_0 == b.name->Some_0@,
{
}

} // verus!
