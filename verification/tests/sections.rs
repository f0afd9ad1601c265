use raygeo::binary64::Binary64;
use raygeo::error::ErrorKind;
use raygeo::ops::command::{RasterMode, SectionType};
use raygeo::ops::section::{OpsSection, OpsSectionRange, StateBlock};
use raygeo::python::ops::container::PyOps;
use raygeo::python::ops::sections::{
    name_matches, sections_by_mode, sections_by_type, state_block_objects, state_blocks_by_name,
    PyOpsSection, PyOpsSectionRange, PyStateBlock,
};

fn n(v: f64) -> Binary64 {
    Binary64 { bits: v.to_bits() }
}

fn line(count: usize) -> PyOps {
    let mut ops = PyOps::new();
    for i in 0..count {
        ops.line_to(n(i as f64), n(0.0), n(0.0), None);
    }
    ops
}

fn xs(ops: &PyOps) -> Vec<f64> {
    (0..ops.len()).map(|i| f64::from_bits(ops.endpoint(i as isize).unwrap().0.bits)).collect()
}

fn section(kind: Option<SectionType>, mode: Option<u8>, content: Vec<usize>) -> OpsSection {
    OpsSection {
        section_type: kind,
        raster_mode: mode.map(|code| RasterMode { code }),
        marker_indices: vec![0, 12],
        content_indices: content,
    }
}

fn block(name: Option<&str>) -> StateBlock {
    StateBlock {
        name: name.map(|s| s.to_string()),
        marker_indices: vec![1, 3],
        content_indices: vec![2],
    }
}

#[test]
fn sections_are_shown_with_their_fields() {
    let s = PyOpsSection(section(Some(SectionType::RasterFill), Some(1), vec![1, 2, 10]));
    assert_eq!(
        s.__repr__("Mask"),
        "OpsSection(section_type=Some(RasterFill), raster_mode=Some(Mask), \
         marker_indices=[0, 12], content_indices=[1, 2, 10])"
    );
    let r = PyOpsSectionRange(OpsSectionRange {
        section_type: None,
        raster_mode: None,
        marker_indices: Vec::new(),
        content_indices: vec![7],
    });
    assert_eq!(
        r.__repr__("Mask"),
        "OpsSectionRange(section_type=None, raster_mode=None, marker_indices=[], \
         content_indices=[7])"
    );
    let v = PyOpsSection(section(Some(SectionType::VectorOutline), None, vec![]));
    assert!(v.__repr__("").starts_with("OpsSection(section_type=Some(VectorOutline), raster_mode=None"));
}

#[test]
fn section_fields_are_handed_out() {
    let s = PyOpsSection(section(Some(SectionType::RasterFill), Some(1), vec![4, 5]));
    assert_eq!(s.section_type(), Some(SectionType::RasterFill));
    assert_eq!(s.raster_mode(), Some(RasterMode { code: 1 }));
    assert_eq!(s.marker_indices(), vec![0, 12]);
    assert_eq!(s.content_indices(), vec![4, 5]);
    assert_eq!(s.clone().content_indices(), vec![4, 5]);
    let r = PyOpsSectionRange(OpsSectionRange {
        section_type: Some(SectionType::VectorOutline),
        raster_mode: None,
        marker_indices: vec![1],
        content_indices: vec![2, 3],
    });
    assert_eq!(r.section_type(), Some(SectionType::VectorOutline));
    assert_eq!(r.raster_mode(), None);
    assert_eq!(r.clone().marker_indices(), vec![1]);
    assert_eq!(r.content_indices(), vec![2, 3]);
    assert_eq!(xs(&r.content(&line(6))), vec![2.0, 3.0]);
}

#[test]
fn contents_are_cut_out() {
    let ops = line(6);
    let s = PyOpsSection(section(None, None, vec![1, 4]));
    assert_eq!(xs(&s.content(&ops)), vec![1.0, 4.0]);
    let b = PyStateBlock { name: None, marker_indices: vec![0], content_indices: vec![5, 2] };
    assert_eq!(xs(&s.state_block_content(&ops, &b)), vec![5.0, 2.0]);
}

#[test]
fn names_fit_patterns() {
    assert!(name_matches("cell-*", Some("cell-1")));
    assert!(name_matches("cell-*", Some("cell-")));
    assert!(!name_matches("cell-*", Some("cell")));
    assert!(!name_matches("cell-*", Some("my-cell-1")));
    assert!(name_matches("labels", Some("labels")));
    assert!(!name_matches("labels", Some("labels2")));
    assert!(name_matches("*", Some("")));
    assert!(name_matches("", Some("")));
    assert!(!name_matches("", Some("x")));
    assert!(!name_matches("*", None));
    assert!(name_matches("a*b", Some("a*b")));
    assert!(!name_matches("a*b", Some("axb")));
}

#[test]
fn state_blocks_are_filtered_by_name() {
    let found = vec![block(Some("cell-1")), block(None), block(Some("cell-2")), block(Some("x"))];
    let cells = state_blocks_by_name(Ok(found), "cell-*").unwrap();
    let names: Vec<Option<String>> = cells.into_iter().map(|b| b.name).collect();
    assert_eq!(names, vec![Some("cell-1".to_string()), Some("cell-2".to_string())]);
    let all = state_block_objects(Ok(vec![block(Some("a")), block(None)])).unwrap();
    assert_eq!(all.len(), 2);
    assert_eq!(all[0].name, Some("a".to_string()));
    assert_eq!(all[1].marker_indices, vec![1, 3]);
    assert_eq!(all[1].content_indices, vec![2]);
}

#[test]
fn a_failed_search_is_a_runtime_error() {
    let e = state_block_objects(Err("bad nesting".to_string())).err().unwrap();
    assert_eq!((e.kind, e.message.as_str()), (ErrorKind::Runtime, "bad nesting"));
    let e = state_blocks_by_name(Err("bad nesting".to_string()), "*").err().unwrap();
    assert_eq!((e.kind, e.message.as_str()), (ErrorKind::Runtime, "bad nesting"));
}

#[test]
fn sections_are_filtered_by_type_and_mode() {
    let all = vec![
        section(Some(SectionType::RasterFill), Some(1), vec![1]),
        section(Some(SectionType::VectorOutline), None, vec![2]),
        section(None, None, vec![3]),
        section(Some(SectionType::RasterFill), Some(2), vec![4]),
    ];
    let raster = sections_by_type(&all, SectionType::RasterFill);
    let contents: Vec<usize> = raster.iter().map(|s| s.content_indices()[0]).collect();
    assert_eq!(contents, vec![1, 4]);
    let vector = sections_by_type(&all, SectionType::VectorOutline);
    assert_eq!(vector.len(), 1);
    let second = sections_by_mode(&all, RasterMode { code: 2 });
    assert_eq!(second.len(), 1);
    assert_eq!(second[0].content_indices(), vec![4]);
    assert!(sections_by_mode(&all, RasterMode { code: 9 }).is_empty());
}
