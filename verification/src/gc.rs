//! The store of the runtime's shared objects. A composite value holds the
//! handle of its object; copies of the value share the object.

use crate::objects::{
    ArrayObj, ChannelObj, ClosureObj, GosHashMap, InterfaceObj, MapObj, SliceObj, StructObj,
    UpValueState, UserData,
};
use crate::value::GosValue;
use vstd::prelude::*;

verus! {

/// Handle of an object in the store.
pub type GcKey = usize;

/// A reference count.
pub type IRC = i32;

/// The objects that a mark pass has queued for a second traversal.
pub type RCQueue = Vec<GcKey>;

/// The elements of an array or of the backing of a slice.
pub type GosVec = Vec<GosValue>;

/// What a cell of the store holds.
pub enum GcObj {
    /// The elements of an array, shared with the slices over it.
    Buffer(GosVec),
    /// The entries of a map.
    Table(GosHashMap),
    Array(ArrayObj),
    Slice(SliceObj),
    GosMap(MapObj),
    Struct(StructObj),
    Closure(ClosureObj),
    Interface(InterfaceObj),
    Channel(ChannelObj),
    UpValue(UpValueState),
    UserData(Box<dyn UserData>),
    /// The object was reclaimed.
    Released,
}

/// One cell: an object and the count of the references to it.
pub struct GcCell {
    pub obj: GcObj,
    pub rc: IRC,
}

/// The store: cells are added at the end and never move.
pub struct GcoVec {
    cells: Vec<GcCell>,
}

/// The cells after one reference to the object in cell `k` went away.
pub open spec fn spec_cells_sub_one(cells: Seq<GcCell>, k: GcKey) -> Seq<GcCell> {
    if k < cells.len() && cells[k as int].rc > IRC::MIN {
        cells.update(k as int, GcCell { obj: cells[k as int].obj, rc: (cells[k as int].rc - 1) as IRC })
    } else {
        cells
    }
}

/// The cells after a mark pass reached the object in cell `k`.
pub open spec fn spec_cells_mark(cells: Seq<GcCell>, k: GcKey) -> Seq<GcCell> {
    if k < cells.len() && cells[k as int].rc <= 0 {
        cells.update(k as int, GcCell { obj: cells[k as int].obj, rc: 1 })
    } else {
        cells
    }
}

/// The queue after a mark pass reached the object in cell `k`.
pub open spec fn spec_queue_mark(cells: Seq<GcCell>, queue: Seq<GcKey>, k: GcKey) -> Seq<GcKey> {
    if k < cells.len() && cells[k as int].rc <= 0 {
        queue.push(k)
    } else {
        queue
    }
}

impl View for GcoVec {
    type V = Seq<GcCell>;

    closed spec fn view(&self) -> Seq<GcCell> {
        self.cells@
    }
}

impl GcoVec {
    /// Whether the handle points to a cell of the store.
    pub open spec fn spec_has(&self, k: GcKey) -> bool {
        k < self@.len()
    }

    /// The object in a cell.
    pub open spec fn spec_obj(&self, k: GcKey) -> GcObj
        recommends
            self.spec_has(k),
    {
        self@[k as int].obj
    }

    /// The reference count of a cell.
    pub open spec fn spec_rc(&self, k: GcKey) -> IRC
        recommends
            self.spec_has(k),
    {
        self@[k as int].rc
    }

    /// Whether the cell holds the elements of an array or slice.
    pub open spec fn spec_is_buffer(&self, k: GcKey) -> bool {
        self.spec_has(k) && self.spec_obj(k) is Buffer
    }

    /// The elements in a cell; none where the cell holds something else.
    pub open spec fn spec_buffer(&self, k: GcKey) -> Seq<GosValue> {
        if self.spec_is_buffer(k) {
            self.spec_obj(k)->Buffer_0@
        } else {
            Seq::empty()
        }
    }

    /// Every cell of `before` is a cell of this store, with the same object
    /// and count.
    pub open spec fn spec_extends(&self, before: &GcoVec) -> bool {
        &&& before@.len() <= self@.len()
        &&& forall|k: int| 0 <= k < before@.len() ==> self@[k] == #[trigger] before@[k]
    }

    /// The store differs from `before` in the object of one cell at most.
    pub open spec fn spec_same_but(&self, before: &GcoVec, k: GcKey) -> bool {
        &&& before@.len() == self@.len()
        &&& forall|j: int| 0 <= j < before@.len() && j != k ==> self@[j] == #[trigger] before@[j]
        &&& k < before@.len() ==> self@[k as int].rc == before@[k as int].rc
    }

    /// A change to a cell that was added after `base` was taken leaves
    /// every cell of `base` as it was.
    pub proof fn lemma_change_above(&self, mid: &GcoVec, base: &GcoVec, k: GcKey)
        requires
            mid.spec_extends(base),
            self.spec_same_but(mid, k),
            k >= base@.len(),
        ensures
            self.spec_extends(base),
    {
        assert forall|j: int| 0 <= j < base@.len() implies self@[j] == #[trigger] base@[j] by {
            assert(mid@[j] == base@[j]);
            assert(self@[j] == mid@[j]);
        }
    }

    /// A store extends each store that a store it extends extends.
    pub proof fn lemma_extends_transitive(&self, mid: &GcoVec, base: &GcoVec)
        requires
            mid.spec_extends(base),
            self.spec_extends(mid),
        ensures
            self.spec_extends(base),
    {
        assert forall|j: int| 0 <= j < base@.len() implies self@[j] == #[trigger] base@[j] by {
            assert(mid@[j] == base@[j]);
            assert(self@[j] == mid@[j]);
        }
    }

    /// A store without objects.
    pub fn new() -> (g: GcoVec)
        ensures
            g@.len() == 0,
    {
        GcoVec { cells: Vec::new() }
    }

    /// The number of cells.
    pub fn len(&self) -> (n: usize)
        ensures
            n == self@.len(),
    {
        self.cells.len()
    }

    /// Puts an object into a new cell at the end, with a count of zero, and
    /// returns its handle. The cells that were there stay as they are.
    pub fn add(&mut self, obj: GcObj) -> (k: GcKey)
        ensures
            k == old(self)@.len(),
            final(self)@ == old(self)@.push(GcCell { obj, rc: 0 }),
            final(self).spec_extends(old(self)),
    {
        let k = self.cells.len();
        self.cells.push(GcCell { obj, rc: 0 });
        k
    }

    /// The object in a cell, if the handle points to one.
    pub fn get(&self, k: GcKey) -> (r: Option<&GcObj>)
        ensures
            r is Some <==> self.spec_has(k),
            r matches Some(o) ==> *o == self.spec_obj(k),
    {
        if k < self.cells.len() {
            Some(&self.cells[k].obj)
        } else {
            None
        }
    }

    /// The object in a cell, to be changed in place. The count and the
    /// other cells stay.
    pub(crate) fn get_mut(&mut self, k: GcKey) -> (r: &mut GcObj)
        requires
            old(self).spec_has(k),
        ensures
            *r == old(self).spec_obj(k),
            final(self)@ == old(self)@.update(
                k as int,
                GcCell { obj: *final(r), rc: old(self).spec_rc(k) },
            ),
    {
        &mut self.cells[k].obj
    }

    /// The elements in a cell, if it holds elements.
    pub fn buffer(&self, k: GcKey) -> (r: Option<&GosVec>)
        ensures
            r is Some <==> self.spec_is_buffer(k),
            r matches Some(v) ==> v@ == self.spec_buffer(k),
    {
        match self.get(k) {
            Some(GcObj::Buffer(v)) => Some(v),
            _ => None,
        }
    }

    /// The elements in a cell that holds elements, to be changed in place.
    pub fn buffer_mut(&mut self, k: GcKey) -> (r: &mut GosVec)
        requires
            old(self).spec_is_buffer(k),
        ensures
            r@ == old(self).spec_buffer(k),
            final(self)@ == old(self)@.update(
                k as int,
                GcCell { obj: GcObj::Buffer(*final(r)), rc: old(self).spec_rc(k) },
            ),
            final(self).spec_same_but(old(self), k),
            final(self).spec_is_buffer(k),
            final(self).spec_buffer(k) == final(r)@,
    {
        match &mut self.cells[k].obj {
            GcObj::Buffer(v) => v,
            _ => vstd::pervasive::unreached(),
        }
    }

    /// Whether the cell holds the entries of a map.
    pub open spec fn spec_is_table(&self, k: GcKey) -> bool {
        self.spec_has(k) && self.spec_obj(k) is Table
    }

    /// The entries of a map in a cell that holds one.
    pub open spec fn spec_table(&self, k: GcKey) -> GosHashMap
        recommends
            self.spec_is_table(k),
    {
        self.spec_obj(k)->Table_0
    }

    /// What the cell holds, if it holds the entries of a map.
    pub fn table(&self, k: GcKey) -> (r: Option<&GosHashMap>)
        ensures
            r is Some <==> self.spec_is_table(k),
            r matches Some(v) ==> *v == self.spec_table(k),
    {
        match self.get(k) {
            Some(GcObj::Table(v)) => Some(v),
            _ => None,
        }
    }

    /// What a cell that holds the entries of a map holds, to be changed in place. The
    /// count and the other cells stay.
    pub fn table_mut(&mut self, k: GcKey) -> (r: &mut GosHashMap)
        requires
            old(self).spec_is_table(k),
        ensures
            *r == old(self).spec_table(k),
            final(self)@ == old(self)@.update(
                k as int,
                GcCell { obj: GcObj::Table(*final(r)), rc: old(self).spec_rc(k) },
            ),
            final(self).spec_same_but(old(self), k),
            final(self).spec_is_table(k),
            final(self).spec_table(k) == *final(r),
    {
        match &mut self.cells[k].obj {
            GcObj::Table(v) => v,
            _ => vstd::pervasive::unreached(),
        }
    }

    /// Whether the cell holds an array.
    pub open spec fn spec_is_array(&self, k: GcKey) -> bool {
        self.spec_has(k) && self.spec_obj(k) is Array
    }

    /// An array in a cell that holds one.
    pub open spec fn spec_array(&self, k: GcKey) -> ArrayObj
        recommends
            self.spec_is_array(k),
    {
        self.spec_obj(k)->Array_0
    }

    /// What the cell holds, if it holds an array.
    pub fn array(&self, k: GcKey) -> (r: Option<&ArrayObj>)
        ensures
            r is Some <==> self.spec_is_array(k),
            r matches Some(v) ==> *v == self.spec_array(k),
    {
        match self.get(k) {
            Some(GcObj::Array(v)) => Some(v),
            _ => None,
        }
    }

    /// What a cell that holds an array holds, to be changed in place. The
    /// count and the other cells stay.
    pub fn array_mut(&mut self, k: GcKey) -> (r: &mut ArrayObj)
        requires
            old(self).spec_is_array(k),
        ensures
            *r == old(self).spec_array(k),
            final(self)@ == old(self)@.update(
                k as int,
                GcCell { obj: GcObj::Array(*final(r)), rc: old(self).spec_rc(k) },
            ),
            final(self).spec_same_but(old(self), k),
            final(self).spec_is_array(k),
            final(self).spec_array(k) == *final(r),
    {
        match &mut self.cells[k].obj {
            GcObj::Array(v) => v,
            _ => vstd::pervasive::unreached(),
        }
    }

    /// Whether the cell holds a slice.
    pub open spec fn spec_is_slice(&self, k: GcKey) -> bool {
        self.spec_has(k) && self.spec_obj(k) is Slice
    }

    /// A slice in a cell that holds one.
    pub open spec fn spec_slice(&self, k: GcKey) -> SliceObj
        recommends
            self.spec_is_slice(k),
    {
        self.spec_obj(k)->Slice_0
    }

    /// What the cell holds, if it holds a slice.
    pub fn slice(&self, k: GcKey) -> (r: Option<&SliceObj>)
        ensures
            r is Some <==> self.spec_is_slice(k),
            r matches Some(v) ==> *v == self.spec_slice(k),
    {
        match self.get(k) {
            Some(GcObj::Slice(v)) => Some(v),
            _ => None,
        }
    }

    /// What a cell that holds a slice holds, to be changed in place. The
    /// count and the other cells stay.
    pub fn slice_mut(&mut self, k: GcKey) -> (r: &mut SliceObj)
        requires
            old(self).spec_is_slice(k),
        ensures
            *r == old(self).spec_slice(k),
            final(self)@ == old(self)@.update(
                k as int,
                GcCell { obj: GcObj::Slice(*final(r)), rc: old(self).spec_rc(k) },
            ),
            final(self).spec_same_but(old(self), k),
            final(self).spec_is_slice(k),
            final(self).spec_slice(k) == *final(r),
    {
        match &mut self.cells[k].obj {
            GcObj::Slice(v) => v,
            _ => vstd::pervasive::unreached(),
        }
    }

    /// Whether the cell holds a map.
    pub open spec fn spec_is_map(&self, k: GcKey) -> bool {
        self.spec_has(k) && self.spec_obj(k) is GosMap
    }

    /// A map in a cell that holds one.
    pub open spec fn spec_map(&self, k: GcKey) -> MapObj
        recommends
            self.spec_is_map(k),
    {
        self.spec_obj(k)->GosMap_0
    }

    /// What the cell holds, if it holds a map.
    pub fn map(&self, k: GcKey) -> (r: Option<&MapObj>)
        ensures
            r is Some <==> self.spec_is_map(k),
            r matches Some(v) ==> *v == self.spec_map(k),
    {
        match self.get(k) {
            Some(GcObj::GosMap(v)) => Some(v),
            _ => None,
        }
    }

    /// What a cell that holds a map holds, to be changed in place. The
    /// count and the other cells stay.
    pub fn map_mut(&mut self, k: GcKey) -> (r: &mut MapObj)
        requires
            old(self).spec_is_map(k),
        ensures
            *r == old(self).spec_map(k),
            final(self)@ == old(self)@.update(
                k as int,
                GcCell { obj: GcObj::GosMap(*final(r)), rc: old(self).spec_rc(k) },
            ),
            final(self).spec_same_but(old(self), k),
            final(self).spec_is_map(k),
            final(self).spec_map(k) == *final(r),
    {
        match &mut self.cells[k].obj {
            GcObj::GosMap(v) => v,
            _ => vstd::pervasive::unreached(),
        }
    }

    /// Whether the cell holds a struct.
    pub open spec fn spec_is_struct_obj(&self, k: GcKey) -> bool {
        self.spec_has(k) && self.spec_obj(k) is Struct
    }

    /// A struct in a cell that holds one.
    pub open spec fn spec_struct_obj(&self, k: GcKey) -> StructObj
        recommends
            self.spec_is_struct_obj(k),
    {
        self.spec_obj(k)->Struct_0
    }

    /// What the cell holds, if it holds a struct.
    pub fn struct_obj(&self, k: GcKey) -> (r: Option<&StructObj>)
        ensures
            r is Some <==> self.spec_is_struct_obj(k),
            r matches Some(v) ==> *v == self.spec_struct_obj(k),
    {
        match self.get(k) {
            Some(GcObj::Struct(v)) => Some(v),
            _ => None,
        }
    }

    /// What a cell that holds a struct holds, to be changed in place. The
    /// count and the other cells stay.
    pub fn struct_obj_mut(&mut self, k: GcKey) -> (r: &mut StructObj)
        requires
            old(self).spec_is_struct_obj(k),
        ensures
            *r == old(self).spec_struct_obj(k),
            final(self)@ == old(self)@.update(
                k as int,
                GcCell { obj: GcObj::Struct(*final(r)), rc: old(self).spec_rc(k) },
            ),
            final(self).spec_same_but(old(self), k),
            final(self).spec_is_struct_obj(k),
            final(self).spec_struct_obj(k) == *final(r),
    {
        match &mut self.cells[k].obj {
            GcObj::Struct(v) => v,
            _ => vstd::pervasive::unreached(),
        }
    }

    /// Whether the cell holds a closure.
    pub open spec fn spec_is_closure(&self, k: GcKey) -> bool {
        self.spec_has(k) && self.spec_obj(k) is Closure
    }

    /// A closure in a cell that holds one.
    pub open spec fn spec_closure(&self, k: GcKey) -> ClosureObj
        recommends
            self.spec_is_closure(k),
    {
        self.spec_obj(k)->Closure_0
    }

    /// What the cell holds, if it holds a closure.
    pub fn closure(&self, k: GcKey) -> (r: Option<&ClosureObj>)
        ensures
            r is Some <==> self.spec_is_closure(k),
            r matches Some(v) ==> *v == self.spec_closure(k),
    {
        match self.get(k) {
            Some(GcObj::Closure(v)) => Some(v),
            _ => None,
        }
    }

    /// What a cell that holds a closure holds, to be changed in place. The
    /// count and the other cells stay.
    pub fn closure_mut(&mut self, k: GcKey) -> (r: &mut ClosureObj)
        requires
            old(self).spec_is_closure(k),
        ensures
            *r == old(self).spec_closure(k),
            final(self)@ == old(self)@.update(
                k as int,
                GcCell { obj: GcObj::Closure(*final(r)), rc: old(self).spec_rc(k) },
            ),
            final(self).spec_same_but(old(self), k),
            final(self).spec_is_closure(k),
            final(self).spec_closure(k) == *final(r),
    {
        match &mut self.cells[k].obj {
            GcObj::Closure(v) => v,
            _ => vstd::pervasive::unreached(),
        }
    }

    /// Whether the cell holds an interface value.
    pub open spec fn spec_is_interface(&self, k: GcKey) -> bool {
        self.spec_has(k) && self.spec_obj(k) is Interface
    }

    /// An interface value in a cell that holds one.
    pub open spec fn spec_interface(&self, k: GcKey) -> InterfaceObj
        recommends
            self.spec_is_interface(k),
    {
        self.spec_obj(k)->Interface_0
    }

    /// What the cell holds, if it holds an interface value.
    pub fn interface(&self, k: GcKey) -> (r: Option<&InterfaceObj>)
        ensures
            r is Some <==> self.spec_is_interface(k),
            r matches Some(v) ==> *v == self.spec_interface(k),
    {
        match self.get(k) {
            Some(GcObj::Interface(v)) => Some(v),
            _ => None,
        }
    }

    /// What a cell that holds an interface value holds, to be changed in place. The
    /// count and the other cells stay.
    pub fn interface_mut(&mut self, k: GcKey) -> (r: &mut InterfaceObj)
        requires
            old(self).spec_is_interface(k),
        ensures
            *r == old(self).spec_interface(k),
            final(self)@ == old(self)@.update(
                k as int,
                GcCell { obj: GcObj::Interface(*final(r)), rc: old(self).spec_rc(k) },
            ),
            final(self).spec_same_but(old(self), k),
            final(self).spec_is_interface(k),
            final(self).spec_interface(k) == *final(r),
    {
        match &mut self.cells[k].obj {
            GcObj::Interface(v) => v,
            _ => vstd::pervasive::unreached(),
        }
    }

    /// Whether the cell holds a channel.
    pub open spec fn spec_is_channel(&self, k: GcKey) -> bool {
        self.spec_has(k) && self.spec_obj(k) is Channel
    }

    /// A channel in a cell that holds one.
    pub open spec fn spec_channel(&self, k: GcKey) -> ChannelObj
        recommends
            self.spec_is_channel(k),
    {
        self.spec_obj(k)->Channel_0
    }

    /// What the cell holds, if it holds a channel.
    pub fn channel(&self, k: GcKey) -> (r: Option<&ChannelObj>)
        ensures
            r is Some <==> self.spec_is_channel(k),
            r matches Some(v) ==> *v == self.spec_channel(k),
    {
        match self.get(k) {
            Some(GcObj::Channel(v)) => Some(v),
            _ => None,
        }
    }

    /// What a cell that holds a channel holds, to be changed in place. The
    /// count and the other cells stay.
    pub fn channel_mut(&mut self, k: GcKey) -> (r: &mut ChannelObj)
        requires
            old(self).spec_is_channel(k),
        ensures
            *r == old(self).spec_channel(k),
            final(self)@ == old(self)@.update(
                k as int,
                GcCell { obj: GcObj::Channel(*final(r)), rc: old(self).spec_rc(k) },
            ),
            final(self).spec_same_but(old(self), k),
            final(self).spec_is_channel(k),
            final(self).spec_channel(k) == *final(r),
    {
        match &mut self.cells[k].obj {
            GcObj::Channel(v) => v,
            _ => vstd::pervasive::unreached(),
        }
    }

    /// Whether the cell holds a captured variable.
    pub open spec fn spec_is_upvalue(&self, k: GcKey) -> bool {
        self.spec_has(k) && self.spec_obj(k) is UpValue
    }

    /// A captured variable in a cell that holds one.
    pub open spec fn spec_upvalue(&self, k: GcKey) -> UpValueState
        recommends
            self.spec_is_upvalue(k),
    {
        self.spec_obj(k)->UpValue_0
    }

    /// What the cell holds, if it holds a captured variable.
    pub fn upvalue(&self, k: GcKey) -> (r: Option<&UpValueState>)
        ensures
            r is Some <==> self.spec_is_upvalue(k),
            r matches Some(v) ==> *v == self.spec_upvalue(k),
    {
        match self.get(k) {
            Some(GcObj::UpValue(v)) => Some(v),
            _ => None,
        }
    }

    /// What a cell that holds a captured variable holds, to be changed in place. The
    /// count and the other cells stay.
    pub(crate) fn upvalue_mut(&mut self, k: GcKey) -> (r: &mut UpValueState)
        requires
            old(self).spec_is_upvalue(k),
        ensures
            *r == old(self).spec_upvalue(k),
            final(self)@ == old(self)@.update(
                k as int,
                GcCell { obj: GcObj::UpValue(*final(r)), rc: old(self).spec_rc(k) },
            ),
            final(self).spec_same_but(old(self), k),
            final(self).spec_is_upvalue(k),
            final(self).spec_upvalue(k) == *final(r),
    {
        match &mut self.cells[k].obj {
            GcObj::UpValue(v) => v,
            _ => vstd::pervasive::unreached(),
        }
    }

    /// The data of the embedding program in a cell, if it holds such data.
    pub fn user_data(&self, k: GcKey) -> (r: Option<&Box<dyn UserData>>)
        ensures
            r is Some <==> self.spec_has(k) && self.spec_obj(k) is UserData,
    {
        match self.get(k) {
            Some(obj) => match obj {
                GcObj::UserData(ud) => Some(ud),
                _ => None,
            },
            None => None,
        }
    }

    /// The count of a cell, if the handle points to one.
    pub fn rc(&self, k: GcKey) -> (r: Option<IRC>)
        ensures
            r == if self.spec_has(k) {
                Some(self.spec_rc(k))
            } else {
                None
            },
    {
        if k < self.cells.len() {
            Some(self.cells[k].rc)
        } else {
            None
        }
    }

    /// Sets the count of a cell; the objects stay.
    pub(crate) fn set_rc(&mut self, k: GcKey, rc: IRC)
        requires
            old(self).spec_has(k),
        ensures
            final(self)@ == old(self)@.update(k as int, GcCell { obj: old(self).spec_obj(k), rc }),
    {
        self.cells[k].rc = rc;
    }

    /// One reference to the object in a cell went away: the count goes down
    /// by one, as far as the machine's integers go.
    pub fn ref_sub_one(&mut self, k: GcKey)
        ensures
            final(self)@ == spec_cells_sub_one(old(self)@, k),
    {
        if k < self.cells.len() {
            let rc = self.cells[k].rc;
            if rc > IRC::MIN {
                self.cells[k].rc = rc - 1;
            }
        }
        proof {
            assert(self@ =~= spec_cells_sub_one(old(self)@, k));
        }
    }

    /// A mark pass reached the object in a cell: a cell whose count is not
    /// positive gets the count one and is queued for a second traversal.
    pub fn rcount_mark_and_queue(&mut self, k: GcKey, queue: &mut RCQueue)
        ensures
            final(self)@ == spec_cells_mark(old(self)@, k),
            final(queue)@ == spec_queue_mark(old(self)@, old(queue)@, k),
    {
        if k < self.cells.len() {
            if self.cells[k].rc <= 0 {
                self.cells[k].rc = 1;
                queue.push(k);
            }
        }
        proof {
            assert(self@ =~= spec_cells_mark(old(self)@, k));
        }
    }

    /// The object in a cell was reclaimed: the cell holds nothing from now
    /// on.
    pub fn release(&mut self, k: GcKey)
        requires
            old(self).spec_has(k),
        ensures
            final(self)@ == old(self)@.update(
                k as int,
                GcCell { obj: GcObj::Released, rc: old(self).spec_rc(k) },
            ),
    {
        self.cells[k].obj = GcObj::Released;
    }

    /// Tells the data of the embedding program in a cell that one reference
    /// to it went away. The store stays as it is.
    pub fn user_data_sub_one(&self, k: GcKey) {
        match self.user_data(k) {
            Some(ud) => ud.ref_sub_one(),
            None => {},
        }
    }

    /// Tells the data of the embedding program in a cell that a mark pass
    /// reached it; the data may add to the queue.
    pub fn user_data_mark(&self, k: GcKey, queue: &mut RCQueue)
        ensures
            !(self.spec_has(k) && self.spec_obj(k) is UserData) ==> final(queue)@ == old(queue)@,
    {
        match self.user_data(k) {
            Some(ud) => ud.mark_dirty(queue),
            None => {},
        }
    }
}

} // verus!
