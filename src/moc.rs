//! The revived, immutable model topology shared by every model instance.

use vstd::prelude::*;

verus! {

/// The placeholder that stands for an id that is not valid text.
pub open spec fn invalid_id() -> Seq<char> {
    seq!['N', 'O', 'N', '_', 'U', 'T', 'F', '8', '_', 'I', 'D']
}

/// An error returned while loading a moc.
#[derive(Copy, Clone, Debug, PartialEq, Eq, Structural)]
pub enum MocError {
    /// The moc version of the data is newer than this library understands.
    MocVersionMismatch(u32),
    /// The moc data is not a valid moc file.
    InvalidMocData,
}

/// The reference canvas of a model: its size and origin in model units and
/// the pixels per unit, all in fixed point.
#[derive(Copy, Clone, Debug)]
pub struct CanvasInfo {
    pub size: [i64; 2],
    pub origin: [i64; 2],
    pub pixels_per_unit: i64,
}

/// What the revival of a moc blob yields: the id tables (an id that is not
/// valid text is `None`) and the per-parameter, per-part and per-drawable
/// arrays, in index order.
pub struct MocTables {
    pub parameter_ids: Vec<Option<String>>,
    pub part_ids: Vec<Option<String>>,
    pub drawable_ids: Vec<Option<String>>,
    pub parameter_min: Vec<i64>,
    pub parameter_max: Vec<i64>,
    pub parameter_default: Vec<i64>,
    pub part_parent_indices: Vec<i32>,
    pub drawable_texture_indices: Vec<i32>,
    pub drawable_constant_flags: Vec<u8>,
    pub drawable_vertex_counts: Vec<i32>,
    pub drawable_indices: Vec<Vec<u16>>,
    pub drawable_masks: Vec<Vec<i32>>,
    pub canvas: CanvasInfo,
}

impl MocTables {
    /// Every parallel array has the length of its id table.
    pub open spec fn consistent(&self) -> bool {
        &&& self.parameter_min@.len() == self.parameter_ids@.len()
        &&& self.parameter_max@.len() == self.parameter_ids@.len()
        &&& self.parameter_default@.len() == self.parameter_ids@.len()
        &&& self.part_parent_indices@.len() == self.part_ids@.len()
        &&& self.drawable_texture_indices@.len() == self.drawable_ids@.len()
        &&& self.drawable_constant_flags@.len() == self.drawable_ids@.len()
        &&& self.drawable_vertex_counts@.len() == self.drawable_ids@.len()
        &&& self.drawable_indices@.len() == self.drawable_ids@.len()
        &&& self.drawable_masks@.len() == self.drawable_ids@.len()
    }
}

/// The text of a revived id: the id itself, or the placeholder.
pub open spec fn id_text(id: Option<String>) -> Seq<char> {
    match id {
        Some(s) => s@,
        None => invalid_id(),
    }
}

/// The id table that `ids` revives to.
pub open spec fn id_table(ids: Seq<Option<String>>) -> Seq<Seq<char>> {
    ids.map_values(|id: Option<String>| id_text(id))
}

/// The view of a list of strings.
pub open spec fn strings_view(v: Seq<String>) -> Seq<Seq<char>> {
    v.map_values(|s: String| s@)
}

/// Whether `i` is the first index of `ids` that holds `name`.
pub open spec fn first_index_of(ids: Seq<Seq<char>>, name: Seq<char>, i: int) -> bool {
    &&& 0 <= i < ids.len()
    &&& ids[i] == name
    &&& forall|j: int| 0 <= j < i ==> ids[j] != name
}

/// Whether `name` occurs in `ids`.
pub open spec fn has_id(ids: Seq<Seq<char>>, name: Seq<char>) -> bool {
    exists|i: int| 0 <= i < ids.len() && ids[i] == name
}

/// The first index of `ids` that holds `name`, if any.
pub fn find_id(ids: &[String], name: &str) -> (r: Option<usize>)
    ensures
        r is Some ==> first_index_of(strings_view(ids@), name@, r.unwrap() as int),
        r is None ==> !has_id(strings_view(ids@), name@),
{
    let key = name.to_owned();
    let mut i: usize = 0;
    while i < ids.len()
        invariant
            i <= ids@.len(),
            key@ == name@,
            forall|j: int| 0 <= j < i ==> strings_view(ids@)[j] != name@,
        decreases ids@.len() - i,
    {
        if ids[i] == key {
            return Some(i);
        }
        i = i + 1;
    }
    None
}

/// A revived moc: the parameter, part and drawable id tables, the parameter
/// ranges and defaults, and the drawables' render topology. Never changed
/// after it is created.
pub struct Moc {
    parameter_ids: Vec<String>,
    part_ids: Vec<String>,
    drawable_ids: Vec<String>,
    parameter_min: Vec<i64>,
    parameter_max: Vec<i64>,
    parameter_default: Vec<i64>,
    part_parent_indices: Vec<i32>,
    drawable_texture_indices: Vec<i32>,
    drawable_constant_flags: Vec<u8>,
    drawable_vertex_counts: Vec<i32>,
    drawable_indices: Vec<Vec<u16>>,
    drawable_masks: Vec<Vec<i32>>,
    canvas: CanvasInfo,
}

fn revive_ids(ids: Vec<Option<String>>) -> (r: Vec<String>)
    ensures
        strings_view(r@) == id_table(ids@),
{
    let mut r: Vec<String> = Vec::new();
    let mut i: usize = 0;
    while i < ids.len()
        invariant
            i <= ids@.len(),
            strings_view(r@) == id_table(ids@.subrange(0, i as int)),
        decreases ids@.len() - i,
    {
        let s = match &ids[i] {
            Some(s) => s.clone(),
            None => {
                proof {
                    reveal_strlit("NON_UTF8_ID");
                }
                let p = "NON_UTF8_ID".to_owned();
                assert(p@ =~= invalid_id());
                p
            },
        };
        assert(s@ == id_text(ids@[i as int]));
        let ghost prev = r@;
        r.push(s);
        assert(strings_view(r@) =~= strings_view(prev).push(s@));
        i = i + 1;
        assert(ids@.subrange(0, i as int) =~= ids@.subrange(0, i - 1).push(ids@[i - 1]));
        assert(strings_view(r@) =~= id_table(ids@.subrange(0, i as int)));
    }
    assert(ids@.subrange(0, ids@.len() as int) =~= ids@);
    r
}

impl Moc {
    /// The parameter ids.
    pub closed spec fn parameter_ids_view(&self) -> Seq<Seq<char>> {
        strings_view(self.parameter_ids@)
    }

    /// The part ids.
    pub closed spec fn part_ids_view(&self) -> Seq<Seq<char>> {
        strings_view(self.part_ids@)
    }

    /// The drawable ids.
    pub closed spec fn drawable_ids_view(&self) -> Seq<Seq<char>> {
        strings_view(self.drawable_ids@)
    }

    pub closed spec fn parameter_min_view(&self) -> Seq<i64> {
        self.parameter_min@
    }

    pub closed spec fn parameter_max_view(&self) -> Seq<i64> {
        self.parameter_max@
    }

    pub closed spec fn parameter_default_view(&self) -> Seq<i64> {
        self.parameter_default@
    }

    pub closed spec fn part_parents_view(&self) -> Seq<i32> {
        self.part_parent_indices@
    }

    pub closed spec fn texture_indices_view(&self) -> Seq<i32> {
        self.drawable_texture_indices@
    }

    pub closed spec fn constant_flags_view(&self) -> Seq<u8> {
        self.drawable_constant_flags@
    }

    pub closed spec fn vertex_counts_view(&self) -> Seq<i32> {
        self.drawable_vertex_counts@
    }

    pub closed spec fn indices_view(&self) -> Seq<Seq<u16>> {
        self.drawable_indices@.map_values(|v: Vec<u16>| v@)
    }

    pub closed spec fn masks_view(&self) -> Seq<Seq<i32>> {
        self.drawable_masks@.map_values(|v: Vec<i32>| v@)
    }

    /// The number of parameters.
    pub open spec fn parameter_count_spec(&self) -> nat {
        self.parameter_ids_view().len()
    }

    /// The number of parts.
    pub open spec fn part_count_spec(&self) -> nat {
        self.part_ids_view().len()
    }

    /// The number of drawables.
    pub open spec fn drawable_count_spec(&self) -> nat {
        self.drawable_ids_view().len()
    }

    /// Every per-parameter, per-part and per-drawable array has the length
    /// of its id table.
    pub open spec fn wf(&self) -> bool {
        &&& self.parameter_min_view().len() == self.parameter_count_spec()
        &&& self.parameter_max_view().len() == self.parameter_count_spec()
        &&& self.parameter_default_view().len() == self.parameter_count_spec()
        &&& self.part_parents_view().len() == self.part_count_spec()
        &&& self.texture_indices_view().len() == self.drawable_count_spec()
        &&& self.constant_flags_view().len() == self.drawable_count_spec()
        &&& self.vertex_counts_view().len() == self.drawable_count_spec()
        &&& self.indices_view().len() == self.drawable_count_spec()
        &&& self.masks_view().len() == self.drawable_count_spec()
    }

    /// Whether some drawable has a mask.
    pub open spec fn is_masked_spec(&self) -> bool {
        exists|i: int| 0 <= i < self.masks_view().len() && self.masks_view()[i].len() > 0
    }

    /// What `load` yields, apart from the moc itself.
    pub open spec fn load_result(version: u32, latest: u32, revived: Option<MocTables>) -> Result<
        (),
        MocError,
    > {
        if version > latest {
            Err(MocError::MocVersionMismatch(version))
        } else if revived is None || !revived.unwrap().consistent() {
            Err(MocError::InvalidMocData)
        } else {
            Ok(())
        }
    }

    /// Revives a moc: rejects a format version newer than `latest`, the
    /// newest version the core that revived it understands, then data that failed revival (`None`) or whose
    /// arrays do not match their id tables; otherwise builds the moc, with
    /// each id that is not valid text replaced by a placeholder.
    pub fn load(version: u32, latest: u32, revived: Option<MocTables>) -> (r: Result<Moc, MocError>)
        ensures
            match Self::load_result(version, latest, revived) {
                Ok(_) => r is Ok && r.unwrap().wf() && r.unwrap().from_tables(revived.unwrap()),
                Err(e) => r == Err::<Moc, MocError>(e),
            },
    {
        if version > latest {
            return Err(MocError::MocVersionMismatch(version));
        }
        match revived {
            None => Err(MocError::InvalidMocData),
            Some(t) => {
                if !Self::tables_consistent(&t) {
                    return Err(MocError::InvalidMocData);
                }
                let ghost g = t;
                let MocTables {
                    parameter_ids,
                    part_ids,
                    drawable_ids,
                    parameter_min,
                    parameter_max,
                    parameter_default,
                    part_parent_indices,
                    drawable_texture_indices,
                    drawable_constant_flags,
                    drawable_vertex_counts,
                    drawable_indices,
                    drawable_masks,
                    canvas,
                } = t;
                let moc = Moc {
                    parameter_ids: revive_ids(parameter_ids),
                    part_ids: revive_ids(part_ids),
                    drawable_ids: revive_ids(drawable_ids),
                    parameter_min,
                    parameter_max,
                    parameter_default,
                    part_parent_indices,
                    drawable_texture_indices,
                    drawable_constant_flags,
                    drawable_vertex_counts,
                    drawable_indices,
                    drawable_masks,
                    canvas,
                };
                proof {
                    assert(moc.indices_view().len() == g.drawable_indices@.len());
                    assert(moc.masks_view().len() == g.drawable_masks@.len());
                }
                Ok(moc)
            },
        }
    }

    /// The moc holds what the tables hold.
    pub open spec fn from_tables(&self, t: MocTables) -> bool {
        &&& self.parameter_ids_view() == id_table(t.parameter_ids@)
        &&& self.part_ids_view() == id_table(t.part_ids@)
        &&& self.drawable_ids_view() == id_table(t.drawable_ids@)
        &&& self.parameter_min_view() == t.parameter_min@
        &&& self.parameter_max_view() == t.parameter_max@
        &&& self.parameter_default_view() == t.parameter_default@
        &&& self.part_parents_view() == t.part_parent_indices@
        &&& self.texture_indices_view() == t.drawable_texture_indices@
        &&& self.constant_flags_view() == t.drawable_constant_flags@
        &&& self.vertex_counts_view() == t.drawable_vertex_counts@
        &&& self.indices_view() == t.drawable_indices@.map_values(|v: Vec<u16>| v@)
        &&& self.masks_view() == t.drawable_masks@.map_values(|v: Vec<i32>| v@)
        &&& self.canvas_spec() == t.canvas
    }

    /// The reference canvas.
    pub closed spec fn canvas_spec(&self) -> CanvasInfo {
        self.canvas
    }

    /// The reference canvas: size, origin and pixels per unit.
    pub fn canvas_info(&self) -> (r: CanvasInfo)
        ensures
            r == self.canvas_spec(),
    {
        self.canvas
    }

    /// The parameter ids, in index order.
    pub fn parameter_ids(&self) -> (r: &[String])
        ensures
            strings_view(r@) == self.parameter_ids_view(),
    {
        self.parameter_ids.as_slice()
    }
    /// The part ids, in index order.
    pub fn part_ids(&self) -> (r: &[String])
        ensures
            strings_view(r@) == self.part_ids_view(),
    {
        self.part_ids.as_slice()
    }
    /// The drawable ids, in index order.
    pub fn drawable_ids(&self) -> (r: &[String])
        ensures
            strings_view(r@) == self.drawable_ids_view(),
    {
        self.drawable_ids.as_slice()
    }
    /// The parameters' maximum values.
    pub fn parameter_max(&self) -> (r: &[i64])
        ensures
            r@ == self.parameter_max_view(),
    {
        self.parameter_max.as_slice()
    }
    /// The parameters' minimum values.
    pub fn parameter_min(&self) -> (r: &[i64])
        ensures
            r@ == self.parameter_min_view(),
    {
        self.parameter_min.as_slice()
    }
    /// The parameters' default values.
    pub fn parameter_default(&self) -> (r: &[i64])
        ensures
            r@ == self.parameter_default_view(),
    {
        self.parameter_default.as_slice()
    }
    /// Each part's parent part index, or -1 for a root part.
    pub fn part_parents(&self) -> (r: &[i32])
        ensures
            r@ == self.part_parents_view(),
    {
        self.part_parent_indices.as_slice()
    }
    /// The drawables' texture indices.
    pub fn drawable_texture_indices(&self) -> (r: &[i32])
        ensures
            r@ == self.texture_indices_view(),
    {
        self.drawable_texture_indices.as_slice()
    }
    /// The drawables' constant flags (see `ConstantFlags`).
    pub fn drawable_constant_flags(&self) -> (r: &[u8])
        ensures
            r@ == self.constant_flags_view(),
    {
        self.drawable_constant_flags.as_slice()
    }
    /// The drawables' vertex counts.
    pub fn drawable_vertex_counts(&self) -> (r: &[i32])
        ensures
            r@ == self.vertex_counts_view(),
    {
        self.drawable_vertex_counts.as_slice()
    }
    /// The triangle index list of drawable `idx`.
    pub fn drawable_indices(&self, idx: usize) -> (r: &[u16])
        requires
            self.wf(),
            idx < self.drawable_count_spec(),
        ensures
            r@ == self.indices_view()[idx as int],
    {
        self.drawable_indices[idx].as_slice()
    }

    /// The drawables that mask drawable `idx`.
    pub fn drawable_masks(&self, idx: usize) -> (r: &[i32])
        requires
            self.wf(),
            idx < self.drawable_count_spec(),
        ensures
            r@ == self.masks_view()[idx as int],
    {
        self.drawable_masks[idx].as_slice()
    }

    /// The number of parameters.
    pub fn parameter_count(&self) -> (r: usize)
        ensures
            r == self.parameter_count_spec(),
    {
        self.parameter_ids.len()
    }

    /// The number of parts.
    pub fn part_count(&self) -> (r: usize)
        ensures
            r == self.part_count_spec(),
    {
        self.part_ids.len()
    }

    /// The number of drawables.
    pub fn drawable_count(&self) -> (r: usize)
        ensures
            r == self.drawable_count_spec(),
    {
        self.drawable_ids.len()
    }

    /// Whether some drawable has a non-empty mask list.
    pub fn is_masked(&self) -> (r: bool)
        requires
            self.wf(),
        ensures
            r == self.is_masked_spec(),
    {
        let mut i: usize = 0;
        while i < self.drawable_masks.len()
            invariant
                i <= self.masks_view().len(),
                self.masks_view().len() == self.drawable_masks@.len(),
                forall|j: int| 0 <= j < i ==> self.masks_view()[j].len() == 0,
            decreases self.drawable_masks@.len() - i,
        {
            if self.drawable_masks[i].len() > 0 {
                assert(self.masks_view()[i as int].len() > 0);
                return true;
            }
            i = i + 1;
        }
        false
    }

    fn tables_consistent(t: &MocTables) -> (r: bool)
        ensures
            r == t.consistent(),
    {
        let np = t.parameter_ids.len();
        let nq = t.part_ids.len();
        let nd = t.drawable_ids.len();
        t.parameter_min.len() == np && t.parameter_max.len() == np && t.parameter_default.len()
            == np && t.part_parent_indices.len() == nq && t.drawable_texture_indices.len() == nd
            && t.drawable_constant_flags.len() == nd && t.drawable_vertex_counts.len() == nd
            && t.drawable_indices.len() == nd && t.drawable_masks.len() == nd
    }
}

} // verus!
