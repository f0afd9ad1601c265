//! The compiled scene: what the compiler is given, and its output as Python objects.
use crate::binary64::{Binary32, Binary64};
use vstd::hash_map::StringHashMap;
use vstd::prelude::*;

verus! {

/// One rendering group, flat or rotary: vertices, attributes and command offsets.
#[derive(Debug)]
pub struct VertexGroup {
    pub is_rotary: bool,
    pub powered_verts: Vec<Binary32>,
    pub powered_attrib: Vec<Binary32>,
    pub travel_verts: Vec<Binary32>,
    pub zero_power_verts: Vec<Binary32>,
    pub powered_cmd_offsets: Vec<i32>,
    pub travel_cmd_offsets: Vec<i32>,
    pub overlay_positions: Vec<Binary32>,
    pub overlay_attrib: Vec<Binary32>,
    pub overlay_cmd_offsets: Vec<i32>,
}

/// What the compiler reports of one layer.
#[derive(Debug)]
pub struct LayerInfo {
    pub cmd_start: usize,
    pub cmd_end: usize,
    pub is_rotary: bool,
    pub diameter: Binary64,
    pub has_scanlines: bool,
    pub scanline_laser: String,
    pub activation_cmd_idx: usize,
    pub axis_position: Binary64,
    pub reverse: bool,
}

/// The output of the compiler.
#[derive(Debug)]
pub struct CompiledSceneData {
    pub groups: Vec<VertexGroup>,
    pub layer_infos: Vec<LayerInfo>,
    pub laser_uid_order: Vec<String>,
}

/// One rendering group, as a Python object.
#[derive(Debug)]
pub struct PyVertexGroup {
    pub is_rotary: bool,
    pub powered_verts: Vec<Binary32>,
    pub powered_attrib: Vec<Binary32>,
    pub travel_verts: Vec<Binary32>,
    pub zero_power_verts: Vec<Binary32>,
    pub powered_cmd_offsets: Vec<i32>,
    pub travel_cmd_offsets: Vec<i32>,
    pub overlay_positions: Vec<Binary32>,
    pub overlay_attrib: Vec<Binary32>,
    pub overlay_cmd_offsets: Vec<i32>,
}

/// What the compiler reports of one layer, as a Python object.
#[derive(Debug)]
pub struct PyLayerInfo {
    pub cmd_start: usize,
    pub cmd_end: usize,
    pub is_rotary: bool,
    pub diameter: Binary64,
    pub has_scanlines: bool,
    pub scanline_laser: String,
    pub activation_cmd_idx: usize,
    pub axis_position: Binary64,
    pub reverse: bool,
}

/// The output of the compiler, as a Python object.
#[derive(Debug)]
pub struct PyCompiledScene3D {
    pub groups: Vec<PyVertexGroup>,
    pub layer_infos: Vec<PyLayerInfo>,
    pub laser_uid_order: Vec<String>,
}

/// Whether an object holds a group.
pub open spec fn same_group(a: VertexGroup, b: PyVertexGroup) -> bool {
    &&& a.is_rotary == b.is_rotary
    &&& a.powered_verts == b.powered_verts
    &&& a.powered_attrib == b.powered_attrib
    &&& a.travel_verts == b.travel_verts
    &&& a.zero_power_verts == b.zero_power_verts
    &&& a.powered_cmd_offsets == b.powered_cmd_offsets
    &&& a.travel_cmd_offsets == b.travel_cmd_offsets
    &&& a.overlay_positions == b.overlay_positions
    &&& a.overlay_attrib == b.overlay_attrib
    &&& a.overlay_cmd_offsets == b.overlay_cmd_offsets
}

fn group_object(a: VertexGroup) -> (r: PyVertexGroup)
    ensures
        same_group(a, r),
{
    PyVertexGroup {
        is_rotary: a.is_rotary,
        powered_verts: a.powered_verts,
        powered_attrib: a.powered_attrib,
        travel_verts: a.travel_verts,
        zero_power_verts: a.zero_power_verts,
        powered_cmd_offsets: a.powered_cmd_offsets,
        travel_cmd_offsets: a.travel_cmd_offsets,
        overlay_positions: a.overlay_positions,
        overlay_attrib: a.overlay_attrib,
        overlay_cmd_offsets: a.overlay_cmd_offsets,
    }
}

/// Whether an object holds what is reported of a layer.
pub open spec fn same_layer(a: LayerInfo, b: PyLayerInfo) -> bool {
    &&& a.cmd_start == b.cmd_start
    &&& a.cmd_end == b.cmd_end
    &&& a.is_rotary == b.is_rotary
    &&& a.diameter == b.diameter
    &&& a.has_scanlines == b.has_scanlines
    &&& a.scanline_laser == b.scanline_laser
    &&& a.activation_cmd_idx == b.activation_cmd_idx
    &&& a.axis_position == b.axis_position
    &&& a.reverse == b.reverse
}

fn layer_object(a: LayerInfo) -> (r: PyLayerInfo)
    ensures
        same_layer(a, r),
{
    PyLayerInfo {
        cmd_start: a.cmd_start,
        cmd_end: a.cmd_end,
        is_rotary: a.is_rotary,
        diameter: a.diameter,
        has_scanlines: a.has_scanlines,
        scanline_laser: a.scanline_laser,
        activation_cmd_idx: a.activation_cmd_idx,
        axis_position: a.axis_position,
        reverse: a.reverse,
    }
}

/// Turns the output of the compiler into Python objects, one for one and in order.
pub fn py_scene_data_to_object(data: CompiledSceneData) -> (r: PyCompiledScene3D)
    ensures
        r.groups@.len() == data.groups@.len(),
        forall|i: int|
            0 <= i < data.groups@.len() ==> same_group(
                #[trigger] data.groups@[i],
                r.groups@[i],
            ),
        r.layer_infos@.len() == data.layer_infos@.len(),
        forall|i: int|
            0 <= i < data.layer_infos@.len() ==> same_layer(
                #[trigger] data.layer_infos@[i],
                r.layer_infos@[i],
            ),
        r.laser_uid_order == data.laser_uid_order,
{
    let ghost groups_in = data.groups@;
    let ghost layers_in = data.layer_infos@;
    let mut groups: Vec<PyVertexGroup> = Vec::new();
    for g in it: data.groups
        invariant
            it.seq() == groups_in,
            groups@.len() == it.index(),
            forall|i: int|
                0 <= i < it.index() ==> same_group(#[trigger] groups_in[i], groups@[i]),
    {
        groups.push(group_object(g));
    }
    let mut layer_infos: Vec<PyLayerInfo> = Vec::new();
    for l in it: data.layer_infos
        invariant
            it.seq() == layers_in,
            layer_infos@.len() == it.index(),
            forall|i: int|
                0 <= i < it.index() ==> same_layer(#[trigger] layers_in[i], layer_infos@[i]),
    {
        layer_infos.push(layer_object(l));
    }
    PyCompiledScene3D { groups, layer_infos, laser_uid_order: data.laser_uid_order }
}

/// How a layer is to be compiled.
#[derive(Clone, Copy, Debug)]
pub struct LayerConfig {
    pub rotary_enabled: bool,
    pub rotary_diameter: Binary64,
    pub axis_position: Binary64,
    pub reverse: bool,
}

/// What a caller said of a layer; a setting that is missing, or is of another type, is absent.
#[derive(Clone, Copy, Debug)]
pub struct LayerOptions {
    pub rotary_enabled: Option<bool>,
    pub rotary_diameter: Option<Binary64>,
    pub axis_position: Option<Binary64>,
    pub reverse: Option<bool>,
}

/// What the compiler is given: the transform from world to view, and how to compile each layer.
pub struct SceneSpec {
    pub world_to_visual: Vec<Vec<Binary32>>,
    pub layer_configs: StringHashMap<LayerConfig>,
}

/// The configuration that the options amount to: flags not given are off, numbers not given are
/// zero.
pub open spec fn config_of(o: LayerOptions) -> LayerConfig {
    LayerConfig {
        rotary_enabled: o.rotary_enabled == Some(true),
        rotary_diameter: match o.rotary_diameter {
            Some(v) => v,
            None => Binary64 { bits: 0 },
        },
        axis_position: match o.axis_position {
            Some(v) => v,
            None => Binary64 { bits: 0 },
        },
        reverse: o.reverse == Some(true),
    }
}

/// The configurations of the first `n` layers by identifier; a later one takes the place of an
/// earlier one.
pub open spec fn configs_of(layers: Seq<(String, LayerOptions)>, n: int) -> Map<
    Seq<char>,
    LayerConfig,
>
    decreases n,
{
    if n <= 0 {
        Map::empty()
    } else {
        configs_of(layers, n - 1).insert(layers[n - 1].0@, config_of(layers[n - 1].1))
    }
}

/// An entry of the four-by-four transform: that of the given table, zero where it has none.
pub open spec fn entry_of(rows: Seq<Vec<Binary32>>, i: int, j: int) -> Binary32 {
    if i < rows.len() && j < rows[i]@.len() {
        rows[i]@[j]
    } else {
        Binary32 { bits: 0 }
    }
}

fn config_from(o: LayerOptions) -> (r: LayerConfig)
    ensures
        r == config_of(o),
{
    LayerConfig {
        rotary_enabled: match o.rotary_enabled {
            Some(v) => v,
            None => false,
        },
        rotary_diameter: match o.rotary_diameter {
            Some(v) => v,
            None => Binary64::zero(),
        },
        axis_position: match o.axis_position {
            Some(v) => v,
            None => Binary64::zero(),
        },
        reverse: match o.reverse {
            Some(v) => v,
            None => false,
        },
    }
}

/// Puts together what the compiler is given. Of the table only the first four rows and columns
/// count, and what is missing of them is zero.
pub fn scene_spec(rows: &Vec<Vec<Binary32>>, layers: &Vec<(String, LayerOptions)>) -> (r: SceneSpec)
    ensures
        r.world_to_visual@.len() == 4,
        forall|i: int| 0 <= i < 4 ==> (#[trigger] r.world_to_visual@[i])@.len() == 4,
        forall|i: int, j: int|
            0 <= i < 4 && 0 <= j < 4 ==> #[trigger] r.world_to_visual@[i]@[j] == entry_of(
                rows@,
                i,
                j,
            ),
        r.layer_configs@ == configs_of(layers@, layers@.len() as int),
{
    let mut world_to_visual: Vec<Vec<Binary32>> = Vec::new();
    let mut i: usize = 0;
    while i < 4
        invariant
            i <= 4,
            world_to_visual@.len() == i,
            forall|k: int| 0 <= k < i ==> (#[trigger] world_to_visual@[k])@.len() == 4,
            forall|k: int, j: int|
                0 <= k < i && 0 <= j < 4 ==> #[trigger] world_to_visual@[k]@[j] == entry_of(
                    rows@,
                    k,
                    j,
                ),
        decreases 4 - i,
    {
        let mut row: Vec<Binary32> = Vec::new();
        let mut j: usize = 0;
        while j < 4
            invariant
                j <= 4,
                row@.len() == j,
                forall|k: int| 0 <= k < j ==> #[trigger] row@[k] == entry_of(rows@, i as int, k),
            decreases 4 - j,
        {
            let entry = if i < rows.len() && j < rows[i].len() {
                rows[i][j]
            } else {
                Binary32 { bits: 0 }
            };
            row.push(entry);
            j += 1;
        }
        world_to_visual.push(row);
        i += 1;
    }
    let mut layer_configs: StringHashMap<LayerConfig> = StringHashMap::new();
    let mut k: usize = 0;
    while k < layers.len()
        invariant
            k <= layers.len(),
            layer_configs@ == configs_of(layers@, k as int),
        decreases layers.len() - k,
    {
        layer_configs.insert(layers[k].0.clone(), config_from(layers[k].1));
        k += 1;
    }
    SceneSpec { world_to_visual, layer_configs }
}

/// An object for a group or a layer holds every part of it under the same name.
pub proof fn law_objects_hold_everything(
    g: VertexGroup,
    h: PyVertexGroup,
    l: LayerInfo,
    m: PyLayerInfo,
)
    ensures
        same_group(g, h) <==> h == (PyVertexGroup {
            is_rotary: g.is_rotary,
            powered_verts: g.powered_verts,
            powered_attrib: g.powered_attrib,
            travel_verts: g.travel_verts,
            zero_power_verts: g.zero_power_verts,
            powered_cmd_offsets: g.powered_cmd_offsets,
            travel_cmd_offsets: g.travel_cmd_offsets,
            overlay_positions: g.overlay_positions,
            overlay_attrib: g.overlay_attrib,
            overlay_cmd_offsets: g.overlay_cmd_offsets,
        }),
        same_layer(l, m) <==> m == (PyLayerInfo {
            cmd_start: l.cmd_start,
            cmd_end: l.cmd_end,
            is_rotary: l.is_rotary,
            diameter: l.diameter,
            has_scanlines: l.has_scanlines,
            scanline_laser: l.scanline_laser,
            activation_cmd_idx: l.activation_cmd_idx,
            axis_position: l.axis_position,
            reverse: l.reverse,
        }),
{
}

/// A setting that was given is taken as it is; a flag that was not is off, and a number that was
/// not is zero.
pub proof fn law_layer_defaults(o: LayerOptions)
    ensures
        o.rotary_enabled is Some ==> config_of(o).rotary_enabled == o.rotary_enabled->Some_0,
        o.rotary_enabled is None ==> !config_of(o).rotary_enabled,
        o.rotary_diameter is Some ==> config_of(o).rotary_diameter == o.rotary_diameter->Some_0,
        o.rotary_diameter is None ==> config_of(o).rotary_diameter.bits == 0,
        o.axis_position is Some ==> config_of(o).axis_position == o.axis_position->Some_0,
        o.axis_position is None ==> config_of(o).axis_position.bits == 0,
        o.reverse is Some ==> config_of(o).reverse == o.reverse->Some_0,
        o.reverse is None ==> !config_of(o).reverse,
{
}

/// Every layer that was named has a configuration and no other has, and it is that of the last
/// mention.
pub proof fn law_layer_configs(layers: Seq<(String, LayerOptions)>, n: int)
    requires
        0 <= n <= layers.len(),
    ensures
        forall|uid: Seq<char>|
            #[trigger] configs_of(layers, n).dom().contains(uid) <==> exists|k: int|
                0 <= k < n && (#[trigger] layers[k]).0@ == uid,
        forall|k: int|
            0 <= k < n && (forall|l: int| k < l < n ==> (#[trigger] layers[l]).0@ != layers[k].0@)
                ==> configs_of(layers, n)[(#[trigger] layers[k]).0@] == config_of(layers[k].1),
    decreases n,
{
    if n > 0 {
        law_layer_configs(layers, n - 1);
        let last = layers[n - 1];
        let prev = configs_of(layers, n - 1);
        let all = configs_of(layers, n);
        assert(all == prev.insert(last.0@, config_of(last.1)));
        assert forall|uid: Seq<char>|
            #[trigger] all.dom().contains(uid) <==> exists|k: int|
                0 <= k < n && (#[trigger] layers[k]).0@ == uid by {
            if uid == last.0@ {
                assert(layers[n - 1].0@ == uid);
            }
            if prev.dom().contains(uid) {
                let k = choose|k: int| 0 <= k < n - 1 && (#[trigger] layers[k]).0@ == uid;
                assert(layers[k].0@ == uid);
            }
        }
        assert forall|k: int|
            0 <= k < n && (forall|l: int| k < l < n ==> (#[trigger] layers[l]).0@
                != layers[k].0@) implies all[(#[trigger] layers[k]).0@] == config_of(
            layers[k].1,
        ) by {
            if k < n - 1 {
                assert(layers[n - 1].0@ != layers[k].0@);
            }
        }
    }
}

/// An entry of the transform is that of the table where the table has it, and zero elsewhere.
pub proof fn law_transform_entries(rows: Seq<Vec<Binary32>>, i: int, j: int)
    requires
        0 <= i < 4,
        0 <= j < 4,
    ensures
        i < rows.len() && j < rows[i]@.len() ==> entry_of(rows, i, j) == rows[i]@[j],
        i >= rows.len() || j >= rows[i]@.len() ==> entry_of(rows, i, j).bits == 0,
{
}

} // verus!
