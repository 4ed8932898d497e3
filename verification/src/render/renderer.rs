//! The renderer's state and its answer to each render signal: which
//! object lives where, under which id, and what a frame draws.

use super::camera::{Camera, CameraState};
use super::canvas::Canvas;
use super::color::{BLACK, WHITE};
use super::layer::{id_layer, Layer, RenderUnitId};
use super::object::{
    data_fits, data_is_dynamic, data_ok, data_wf, drawable, made_from, object_pos, object_wf,
    plan_of, shows, updated, DrawPlan, Object, ObjectData,
};
use super::sprite::{moved, moved_ok};
use crate::input::{Event, OtherEvent};
use crate::types::positions::{wrap_i32, Position3D};
use crate::types::sparseset::SparseSet;
use std::sync::Arc;
use vstd::prelude::*;

verus! {

/// The number of ids each layer has room for.
pub const LAYER_CAPACITY: usize = 1000;

/// Something on screen: its shared id, the object, and whether it is
/// animated on each tick.
pub struct RenderUnit {
    pub id: Arc<RenderUnitId>,
    pub object: Object,
    pub animated: bool,
}

impl RenderUnit {
    /// The id the unit holds now (shared with other threads, so nothing is
    /// stated of it).
    pub fn id(&self) -> usize {
        self.id.load()
    }

    pub fn is_static(&self) -> (r: bool)
        ensures
            r == !super::object::object_is_dynamic(self.object),
    {
        self.object.is_static()
    }

    pub fn is_dynamic(&self) -> (r: bool)
        ensures
            r == super::object::object_is_dynamic(self.object),
    {
        self.object.is_dynamic()
    }
}

/// The units of one layer, the next id to give out, and ids given back.
pub struct LayerStore {
    units: SparseSet<RenderUnit>,
    counter: usize,
    free: Vec<usize>,
}

impl LayerStore {
    pub closed spec fn units(&self) -> Map<usize, RenderUnit> {
        self.units@
    }

    pub closed spec fn counter(&self) -> usize {
        self.counter
    }

    pub closed spec fn free(&self) -> Seq<usize> {
        self.free@
    }

    /// The store is consistent: every id given back is in range, and every
    /// object is well formed.
    pub closed spec fn wf(&self) -> bool {
        &&& self.units.wf()
        &&& self.units.capacity() == LAYER_CAPACITY
        &&& forall|i: int| 0 <= i < self.free@.len() ==> #[trigger] self.free@[i] < LAYER_CAPACITY
        &&& forall|k: usize| #[trigger] self.units@.contains_key(k) ==> object_wf(self.units@[k].object)
    }

    /// The id the next insertion takes: the first id given back, or the
    /// counter.
    pub open spec fn next_id(&self) -> usize {
        if self.free().len() > 0 {
            self.free()[0]
        } else {
            self.counter()
        }
    }

    /// The next id is in range.
    pub open spec fn has_room(&self) -> bool {
        self.free().len() > 0 || self.counter() < LAYER_CAPACITY
    }

    fn new() -> (r: Self)
        ensures
            r.wf(),
            r.units() == Map::<usize, RenderUnit>::empty(),
            r.counter() == 1,
            r.free().len() == 0,
    {
        LayerStore { units: SparseSet::new(LAYER_CAPACITY), counter: 1, free: Vec::new() }
    }

    fn room(&self) -> (r: bool)
        ensures
            r == self.has_room(),
    {
        self.free.len() > 0 || self.counter < LAYER_CAPACITY
    }

    /// Takes the next id: the first id given back (the last one takes its
    /// place in the list), or the counter, which moves on.
    fn take_id(&mut self) -> (r: usize)
        requires
            old(self).wf(),
            old(self).has_room(),
        ensures
            final(self).wf(),
            r == old(self).next_id(),
            r < LAYER_CAPACITY,
            final(self).units() == old(self).units(),
            old(self).free().len() > 0 ==> final(self).counter() == old(self).counter()
                && final(self).free() == old(self).free().update(0, old(self).free().last()).drop_last(),
            old(self).free().len() == 0 ==> final(self).counter() == old(self).counter() + 1
                && final(self).free() == old(self).free(),
    {
        if self.free.len() > 0 {
            let ghost f = self.free@;
            let r = self.free.swap_remove(0);
            assert forall|i: int| 0 <= i < self.free@.len() implies #[trigger] self.free@[i] < LAYER_CAPACITY by {
                if i == 0 {
                    assert(self.free@[0] == f[f.len() - 1]);
                } else {
                    assert(self.free@[i] == f[i]);
                }
            }
            r
        } else {
            self.counter += 1;
            self.counter - 1
        }
    }
}

/// What the renderer asks of the world outside after a signal.
#[derive(Debug)]
pub enum Effect {
    /// Send this event to the event queue.
    Send(Event),
    /// Clear the terminal screen.
    ClearScreen,
    /// The signal could not be carried out and was dropped.
    Refused,
}

/// The renderer: four layers of units, the canvas, the colors, the world
/// camera and the interface camera.
pub struct Renderer {
    background: LayerStore,
    middleground: LayerStore,
    foreground: LayerStore,
    ui: LayerStore,
    canvas: Canvas,
    fg_color: u8,
    bg_color: u8,
    camera: Camera,
    ui_camera: Camera,
}

impl Renderer {
    pub closed spec fn store(&self, l: Layer) -> LayerStore {
        match l {
            Layer::Background => self.background,
            Layer::Middleground => self.middleground,
            Layer::Foreground => self.foreground,
            Layer::Ui => self.ui,
        }
    }

    /// The units on layer `l`, by id.
    pub open spec fn layer(&self, l: Layer) -> Map<usize, RenderUnit> {
        self.store(l).units()
    }

    pub closed spec fn canvas(&self) -> Canvas {
        self.canvas
    }

    pub closed spec fn colors(&self) -> (u8, u8) {
        (self.fg_color, self.bg_color)
    }

    pub closed spec fn cam(&self) -> CameraState {
        self.camera@
    }

    pub closed spec fn ui_cam(&self) -> CameraState {
        self.ui_camera@
    }

    pub closed spec fn wf(&self) -> bool {
        &&& self.background.wf()
        &&& self.middleground.wf()
        &&& self.foreground.wf()
        &&& self.ui.wf()
    }

    /// Every layer's store is consistent.
    pub proof fn lemma_wf_layers(&self)
        requires
            self.wf(),
        ensures
            forall|l: Layer| #[trigger] self.store(l).wf(),
    {
        assert forall|l: Layer| #[trigger] self.store(l).wf() by {
            match l {
                Layer::Background => {},
                Layer::Middleground => {},
                Layer::Foreground => {},
                Layer::Ui => {},
            }
        }
    }

    /// An empty renderer for `canvas`: both cameras at the origin and the
    /// canvas's size (through `as u32`), white on black.
    pub fn new(canvas: Canvas) -> (r: Self)
        ensures
            r.wf(),
            forall|l: Layer| #[trigger] r.layer(l) == Map::<usize, RenderUnit>::empty(),
            forall|l: Layer| #[trigger] r.store(l).counter() == 1 && r.store(l).free().len() == 0,
            r.canvas() == canvas,
            r.colors() == (WHITE, BLACK),
            r.cam() == (CameraState { x: 0, y: 0, z: 0, width: canvas.width as u32, height: canvas.height as u32, depth: 1 }),
            r.ui_cam() == r.cam(),
    {
        let w = canvas.width as u32;
        let h = canvas.height as u32;
        let r = Renderer {
            background: LayerStore::new(),
            middleground: LayerStore::new(),
            foreground: LayerStore::new(),
            ui: LayerStore::new(),
            canvas,
            fg_color: WHITE,
            bg_color: BLACK,
            camera: Camera::new(w, h),
            ui_camera: Camera::new(w, h),
        };
        assert forall|l: Layer| #[trigger] r.layer(l) == Map::<usize, RenderUnit>::empty() by {
            match l {
                Layer::Background => {},
                Layer::Middleground => {},
                Layer::Foreground => {},
                Layer::Ui => {},
            }
        }
        assert forall|l: Layer| #[trigger] r.store(l).counter() == 1 && r.store(l).free().len() == 0 by {
            match l {
                Layer::Background => {},
                Layer::Middleground => {},
                Layer::Foreground => {},
                Layer::Ui => {},
            }
        }
        r
    }
}

/// The first id at or after `key` that holds nothing in `units`.
pub open spec fn first_free(units: Map<usize, RenderUnit>, key: nat) -> nat
    decreases LAYER_CAPACITY - key,
{
    if key >= LAYER_CAPACITY || !units.dom().contains(key as usize) {
        key
    } else {
        first_free(units, key + 1)
    }
}

impl LayerStore {
    /// Stores `object` under the next id, which `id` is made to hold.
    fn insert_new(&mut self, id: Arc<RenderUnitId>, object: Object, animated: bool) -> (r: usize)
        requires
            old(self).wf(),
            old(self).has_room(),
            object_wf(object),
        ensures
            final(self).wf(),
            r == old(self).next_id(),
            final(self).units() == old(self).units().insert(r, RenderUnit { id, object, animated }),
            old(self).free().len() == 0 ==> final(self).counter() == old(self).counter() + 1 && final(self).free().len() == 0,
            old(self).free().len() > 0 ==> final(self).counter() == old(self).counter()
                && final(self).free() == old(self).free().update(0, old(self).free().last()).drop_last(),
    {
        let k = self.take_id();
        id.store(k);
        self.units.insert(k, RenderUnit { id, object, animated });
        k
    }

    fn remove_key(&mut self, key: usize) -> (r: Option<RenderUnit>)
        requires
            old(self).wf(),
        ensures
            final(self).wf(),
            final(self).units() == old(self).units().remove(key),
            r == (if old(self).units().contains_key(key) { Some(old(self).units()[key]) } else { None }),
            final(self).counter() == old(self).counter(),
            final(self).free() == old(self).free(),
    {
        self.units.remove(key)
    }

    /// Moves the object under `key` by `pos`.
    fn move_key(&mut self, key: usize, pos: Position3D<i32>)
        requires
            old(self).wf(),
            old(self).units().contains_key(key),
            moved_ok(object_pos(old(self).units()[key].object), pos),
        ensures
            final(self).wf(),
            final(self).units().dom() == old(self).units().dom(),
            forall|k: usize| #[trigger] final(self).units().contains_key(k) && k != key ==> final(self).units()[k] == old(self).units()[k],
            object_pos(final(self).units()[key].object) == moved(object_pos(old(self).units()[key].object), pos),
            final(self).units()[key].id == old(self).units()[key].id,
            final(self).units()[key].animated == old(self).units()[key].animated,
            final(self).counter() == old(self).counter(),
            final(self).free() == old(self).free(),
    {
        let ghost before = self.units@;
        let unit = self.units.get_mut(key);
        match unit {
            Some(u) => {
                u.object.move_pos(pos);
            },
            None => {},
        }
        assert(self.units@.dom() =~= before.dom());
    }

    /// Puts `object` in place of the object under `key`, if there is one.
    fn replace_object(&mut self, key: usize, object: Object)
        requires
            old(self).wf(),
            object_wf(object),
        ensures
            final(self).wf(),
            old(self).units().contains_key(key) ==> final(self).units() == old(self).units().insert(
                key,
                RenderUnit { object, ..old(self).units()[key] },
            ),
            !old(self).units().contains_key(key) ==> final(self).units() == old(self).units(),
            final(self).counter() == old(self).counter(),
            final(self).free() == old(self).free(),
    {
        let unit = self.units.get_mut(key);
        match unit {
            Some(u) => {
                u.object = object;
            },
            None => {},
        }
    }

    fn clear(&mut self)
        requires
            old(self).wf(),
        ensures
            final(self).wf(),
            final(self).units() == Map::<usize, RenderUnit>::empty(),
            final(self).counter() == old(self).counter(),
            final(self).free() == old(self).free(),
    {
        self.units.clear();
    }

    /// The first free id at or after `key`, if it is in range.
    fn probe(&self, key: usize) -> (r: Option<usize>)
        requires
            self.wf(),
        ensures
            first_free(self.units(), key as nat) < LAYER_CAPACITY ==> r == Some(first_free(self.units(), key as nat) as usize),
            first_free(self.units(), key as nat) >= LAYER_CAPACITY ==> r is None,
    {
        let mut id = key;
        while id < LAYER_CAPACITY && self.units.is_filled(id)
            invariant
                self.wf(),
                key <= id,
                first_free(self.units(), key as nat) == first_free(self.units(), id as nat),
            decreases LAYER_CAPACITY - id,
        {
            id += 1;
        }
        if id < LAYER_CAPACITY {
            Some(id)
        } else {
            None
        }
    }

    /// Stores `unit` under `key`.
    fn put(&mut self, key: usize, unit: RenderUnit)
        requires
            old(self).wf(),
            key < LAYER_CAPACITY,
            object_wf(unit.object),
        ensures
            final(self).wf(),
            final(self).units() == old(self).units().insert(key, unit),
            final(self).counter() == old(self).counter(),
            final(self).free() == old(self).free(),
    {
        self.units.insert(key, unit);
    }
}

impl Renderer {
    /// Everything but layer `l` is as in `old`.
    pub open spec fn same_but(&self, old: Renderer, l: Layer) -> bool {
        &&& forall|m: Layer| m != l ==> #[trigger] self.store(m) == old.store(m)
        &&& self.canvas() == old.canvas()
        &&& self.colors() == old.colors()
        &&& self.cam() == old.cam()
        &&& self.ui_cam() == old.ui_cam()
    }

    fn store_mut(&mut self, l: Layer) -> (r: &mut LayerStore)
        ensures
            *r == old(self).store(l),
            final(self).store(l) == *final(r),
            final(self).same_but(*old(self), l),
    {
        match l {
            Layer::Background => &mut self.background,
            Layer::Middleground => &mut self.middleground,
            Layer::Foreground => &mut self.foreground,
            Layer::Ui => &mut self.ui,
        }
    }

    fn store_ref(&self, l: Layer) -> (r: &LayerStore)
        ensures
            *r == self.store(l),
    {
        match l {
            Layer::Background => &self.background,
            Layer::Middleground => &self.middleground,
            Layer::Foreground => &self.foreground,
            Layer::Ui => &self.ui,
        }
    }

    /// Whether layer `l` has an id to give out.
    pub fn has_room(&self, l: Layer) -> (r: bool)
        ensures
            r == self.store(l).has_room(),
    {
        self.store_ref(l).room()
    }

    /// Makes the object `data` describes and stores it on the layer of
    /// `id` under that layer's next id, which `id` is made to hold; a moving
    /// object is animated on each tick. Returns the id.
    pub fn insert(&mut self, id: Arc<RenderUnitId>, data: ObjectData) -> (r: usize)
        requires
            old(self).wf(),
            data_ok(data, old(self).canvas()),
            data_wf(data),
            old(self).store(id_layer(*id)).has_room(),
        ensures
            final(self).wf(),
            final(self).same_but(*old(self), id_layer(*id)),
            r == old(self).store(id_layer(*id)).next_id(),
            old(self).store(id_layer(*id)).free().len() == 0 ==> final(self).store(id_layer(*id)).counter() == old(self).store(id_layer(*id)).counter() + 1 && final(self).store(id_layer(*id)).free().len() == 0,
            old(self).store(id_layer(*id)).free().len() > 0 ==> final(self).store(id_layer(*id)).counter() == old(self).store(id_layer(*id)).counter()
                && final(self).store(id_layer(*id)).free() == old(self).store(id_layer(*id)).free().update(0, old(self).store(id_layer(*id)).free().last()).drop_last(),
            final(self).layer(id_layer(*id)).dom() == old(self).layer(id_layer(*id)).dom().insert(r),
            forall|k: usize| k != r && #[trigger] old(self).layer(id_layer(*id)).contains_key(k) ==> final(self).layer(id_layer(*id))[k] == old(self).layer(id_layer(*id))[k],
            final(self).layer(id_layer(*id))[r].id == id,
            made_from(final(self).layer(id_layer(*id))[r].object, data, old(self).canvas()),
            final(self).layer(id_layer(*id))[r].animated == data_is_dynamic(data),
    {
        proof {
            self.lemma_wf_layers();
        }
        let is_dyn = match &data {
            ObjectData::Sprite { glyph, .. } => match glyph {
                super::object::GlyphType::Multi { .. } => true,
                super::object::GlyphType::Single(_) => false,
            },
            ObjectData::Text { data, .. } => match data {
                super::object::TextType::Multi { .. } => true,
                super::object::TextType::Single(_) => false,
            },
        };
        let object = Object::from_data(data, &self.canvas);
        let layer = id.layer();
        let ghost before = *self;
        let store = self.store_mut(layer);
        let k = store.insert_new(id, object, is_dyn);
        proof {
            assert forall|m: Layer| #[trigger] self.store(m).wf() by {
                if m != layer {
                    before.lemma_wf_layers();
                }
            }
            assert(self.store(Layer::Background).wf());
            assert(self.store(Layer::Middleground).wf());
            assert(self.store(Layer::Foreground).wf());
            assert(self.store(Layer::Ui).wf());
        }
        k
    }
}

impl Renderer {
    /// The renderer is consistent when each layer's store is.
    proof fn lemma_wf_stores(&self)
        requires
            forall|l: Layer| #[trigger] self.store(l).wf(),
        ensures
            self.wf(),
    {
        assert(self.store(Layer::Background).wf());
        assert(self.store(Layer::Middleground).wf());
        assert(self.store(Layer::Foreground).wf());
        assert(self.store(Layer::Ui).wf());
    }

    /// After a change to layer `l` that kept its store consistent, the
    /// renderer is consistent.
    proof fn lemma_wf_after(&self, old: Renderer, l: Layer)
        requires
            old.wf(),
            self.same_but(old, l),
            self.store(l).wf(),
        ensures
            self.wf(),
    {
        old.lemma_wf_layers();
        assert forall|m: Layer| #[trigger] self.store(m).wf() by {
            if m != l {
                assert(self.store(m) == old.store(m));
            }
        }
        self.lemma_wf_stores();
    }

    /// Takes the unit under `key` off layer `l`.
    pub fn remove(&mut self, l: Layer, key: usize) -> (r: Option<RenderUnit>)
        requires
            old(self).wf(),
        ensures
            final(self).wf(),
            final(self).same_but(*old(self), l),
            final(self).layer(l) == old(self).layer(l).remove(key),
            final(self).store(l).counter() == old(self).store(l).counter(),
            final(self).store(l).free() == old(self).store(l).free(),
            r == (if old(self).layer(l).contains_key(key) { Some(old(self).layer(l)[key]) } else { None }),
    {
        proof {
            self.lemma_wf_layers();
        }
        let ghost before = *self;
        let store = self.store_mut(l);
        let r = store.remove_key(key);
        proof {
            self.lemma_wf_after(before, l);
        }
        r
    }

    /// Moves the object under `key` on layer `l` by `pos`.
    pub fn move_object(&mut self, l: Layer, key: usize, pos: Position3D<i32>)
        requires
            old(self).wf(),
            old(self).layer(l).contains_key(key),
            moved_ok(object_pos(old(self).layer(l)[key].object), pos),
        ensures
            final(self).wf(),
            final(self).same_but(*old(self), l),
            final(self).layer(l).dom() == old(self).layer(l).dom(),
            forall|k: usize| #[trigger] final(self).layer(l).contains_key(k) && k != key ==> final(self).layer(l)[k] == old(self).layer(l)[k],
            object_pos(final(self).layer(l)[key].object) == moved(object_pos(old(self).layer(l)[key].object), pos),
            final(self).layer(l)[key].id == old(self).layer(l)[key].id,
            final(self).layer(l)[key].animated == old(self).layer(l)[key].animated,
    {
        proof {
            self.lemma_wf_layers();
        }
        let ghost before = *self;
        let store = self.store_mut(l);
        store.move_key(key, pos);
        proof {
            self.lemma_wf_after(before, l);
        }
    }

    /// Makes the object `data` describes and puts it in place of the object
    /// under `key` on layer `l`, if there is one; its id and animation stay.
    pub fn update_object(&mut self, l: Layer, key: usize, data: ObjectData)
        requires
            old(self).wf(),
            data_ok(data, old(self).canvas()),
            data_wf(data),
        ensures
            final(self).wf(),
            final(self).same_but(*old(self), l),
            final(self).layer(l).dom() == old(self).layer(l).dom(),
            forall|k: usize| #[trigger] final(self).layer(l).contains_key(k) && k != key ==> final(self).layer(l)[k] == old(self).layer(l)[k],
            old(self).layer(l).contains_key(key) ==> {
                &&& made_from(final(self).layer(l)[key].object, data, old(self).canvas())
                &&& final(self).layer(l)[key].id == old(self).layer(l)[key].id
                &&& final(self).layer(l)[key].animated == old(self).layer(l)[key].animated
            },
    {
        proof {
            self.lemma_wf_layers();
        }
        let object = Object::from_data(data, &self.canvas);
        let ghost before = *self;
        let store = self.store_mut(l);
        store.replace_object(key, object);
        proof {
            self.lemma_wf_after(before, l);
            assert(self.layer(l).dom() =~= before.layer(l).dom());
        }
    }

    /// Moves the unit under `key` on layer `from` to layer `to`, under the
    /// first id at or after `key` that is free there (after the unit has
    /// left `from`). When the id changes the unit's id is made to hold it.
    /// A unit moved to the interface layer under its own id is dropped.
    pub fn move_layer(&mut self, from: Layer, key: usize, to: Layer)
        requires
            old(self).wf(),
            old(self).layer(from).contains_key(key),
            first_free(
                if from == to { old(self).layer(from).remove(key) } else { old(self).layer(to) },
                key as nat,
            ) < LAYER_CAPACITY,
        ensures
            final(self).wf(),
            forall|m: Layer| m != from && m != to ==> #[trigger] final(self).store(m) == old(self).store(m),
            final(self).canvas() == old(self).canvas(),
            final(self).colors() == old(self).colors(),
            final(self).cam() == old(self).cam(),
            final(self).ui_cam() == old(self).ui_cam(),
            ({
                let left = if from == to { old(self).layer(from).remove(key) } else { old(self).layer(to) };
                let j = first_free(left, key as nat) as usize;
                &&& from != to ==> final(self).layer(from) == old(self).layer(from).remove(key)
                &&& (to == Layer::Ui && j == key) ==> final(self).layer(to) == left
                &&& !(to == Layer::Ui && j == key) ==> final(self).layer(to) == left.insert(j, old(self).layer(from)[key])
            }),
    {
        proof {
            self.lemma_wf_layers();
        }
        let ghost before = *self;
        let unit = self.remove(from, key);
        let val = match unit {
            Some(u) => u,
            None => {
                return;
            },
        };
        let ghost mid = *self;
        proof {
            mid.lemma_wf_layers();
        }
        let found = self.store_ref(to).probe(key);
        let id = match found {
            Some(j) => j,
            None => {
                return;
            },
        };
        let changed = id != key;
        if changed {
            val.id.store(id);
        }
        match to {
            Layer::Ui => {
                if changed {
                    let store = self.store_mut(to);
                    store.put(id, val);
                    proof {
                        self.lemma_wf_after(mid, to);
                    }
                }
            },
            _ => {
                let store = self.store_mut(to);
                store.put(id, val);
                proof {
                    self.lemma_wf_after(mid, to);
                }
            },
        }
    }

    /// Removes every unit from every layer.
    pub fn clear(&mut self)
        requires
            old(self).wf(),
        ensures
            final(self).wf(),
            forall|l: Layer| #[trigger] final(self).layer(l) == Map::<usize, RenderUnit>::empty(),
            forall|l: Layer| #[trigger] final(self).store(l).counter() == old(self).store(l).counter(),
            forall|l: Layer| #[trigger] final(self).store(l).free() == old(self).store(l).free(),
            final(self).canvas() == old(self).canvas(),
            final(self).colors() == old(self).colors(),
            final(self).cam() == old(self).cam(),
            final(self).ui_cam() == old(self).ui_cam(),
    {
        self.foreground.clear();
        self.middleground.clear();
        self.background.clear();
        self.ui.clear();
        proof {
            assert forall|l: Layer| #[trigger] self.layer(l) == Map::<usize, RenderUnit>::empty() && self.store(l).counter() == old(self).store(l).counter() && self.store(l).free() == old(self).store(l).free() by {
                match l {
                    Layer::Background => {},
                    Layer::Middleground => {},
                    Layer::Foreground => {},
                    Layer::Ui => {},
                }
            }
        }
    }

    /// Takes the terminal's new size as the canvas, and gives the event
    /// that tells of it.
    pub fn term_size_change(&mut self, cols: u32, rows: u32) -> (r: Event)
        ensures
            final(self).canvas() == (Canvas { width: cols as usize, height: rows as usize }),
            forall|l: Layer| #[trigger] final(self).store(l) == old(self).store(l),
            final(self).colors() == old(self).colors(),
            final(self).cam() == old(self).cam(),
            final(self).ui_cam() == old(self).ui_cam(),
            r == Event::Other(OtherEvent::ScreenSizeChange { width: cols, height: rows }),
    {
        self.canvas.width = cols as usize;
        self.canvas.height = rows as usize;
        Event::Other(
            OtherEvent::ScreenSizeChange {
                width: self.canvas.width as u32,
                height: self.canvas.height as u32,
            },
        )
    }

    pub fn change_fg(&mut self, fg: u8)
        ensures
            final(self).colors() == (fg, old(self).colors().1),
            forall|l: Layer| #[trigger] final(self).store(l) == old(self).store(l),
            final(self).canvas() == old(self).canvas(),
            final(self).cam() == old(self).cam(),
            final(self).ui_cam() == old(self).ui_cam(),
    {
        self.fg_color = fg;
    }

    pub fn change_bg(&mut self, bg: u8)
        ensures
            final(self).colors() == (old(self).colors().0, bg),
            forall|l: Layer| #[trigger] final(self).store(l) == old(self).store(l),
            final(self).canvas() == old(self).canvas(),
            final(self).cam() == old(self).cam(),
            final(self).ui_cam() == old(self).ui_cam(),
    {
        self.bg_color = bg;
    }
}

/// What the rest of the engine asks of the renderer.
#[derive(Debug)]
pub enum RenderSignal {
    Insert(Arc<RenderUnitId>, ObjectData),
    Remove(Arc<RenderUnitId>),
    Move(Arc<RenderUnitId>, Position3D<i32>),
    MoveLayer(Arc<RenderUnitId>, Layer),
    TermSizeChange(u32, u32),
    Foreground(u8),
    Background(u8),
    MoveCamera(Position3D<i32>),
    PageUI(i32),
    ScrollUI(i32),
    ShiftUI(i32),
    SetCamera(Position3D<i32>),
    Update(Arc<RenderUnitId>, ObjectData),
    Redraw,
    Clear,
    Batch(Vec<RenderSignal>),
    Sequence(Vec<RenderSignal>),
}

/// `v` fits in an `i32`.
pub open spec fn fits_i32(v: int) -> bool {
    i32::MIN <= v <= i32::MAX
}

/// `cam` moved by `x`, `y` and `z`.
pub open spec fn shifted(cam: CameraState, x: int, y: int, z: int) -> CameraState {
    CameraState { x: (cam.x + x) as i32, y: (cam.y + y) as i32, z: (cam.z + z) as i32, ..cam }
}

/// `cam` can be moved by `x`, `y` and `z` without overflow.
pub open spec fn shift_ok(cam: CameraState, x: int, y: int, z: int) -> bool {
    fits_i32(cam.x + x) && fits_i32(cam.y + y) && fits_i32(cam.z + z)
}

fn can_shift(cam: &Camera, x: i32, y: i32, z: i32) -> (r: bool)
    ensures
        r == shift_ok(cam@, x as int, y as int, z as int),
{
    let nx = cam.x() as i64 + x as i64;
    let ny = cam.y() as i64 + y as i64;
    let nz = cam.z() as i64 + z as i64;
    i32::MIN as i64 <= nx && nx <= i32::MAX as i64 && i32::MIN as i64 <= ny && ny <= i32::MAX as i64
        && i32::MIN as i64 <= nz && nz <= i32::MAX as i64
}

impl Renderer {
    /// Everything but the cameras is as in `old`.
    pub open spec fn same_but_cameras(&self, old: Renderer) -> bool {
        &&& forall|l: Layer| #[trigger] self.store(l) == old.store(l)
        &&& self.canvas() == old.canvas()
        &&& self.colors() == old.colors()
    }

    /// Moves the world camera by `pos`.
    pub fn move_camera(&mut self, pos: Position3D<i32>)
        requires
            shift_ok(old(self).cam(), pos.x as int, pos.y as int, pos.z as int),
        ensures
            final(self).same_but_cameras(*old(self)),
            final(self).cam() == shifted(old(self).cam(), pos.x as int, pos.y as int, pos.z as int),
            final(self).ui_cam() == old(self).ui_cam(),
    {
        self.camera.shift(pos.x, pos.y, pos.z);
    }

    /// Puts the world camera at `pos`.
    pub fn set_camera(&mut self, pos: Position3D<i32>)
        ensures
            final(self).same_but_cameras(*old(self)),
            final(self).cam() == (CameraState { x: pos.x, y: pos.y, z: pos.z, ..old(self).cam() }),
            final(self).ui_cam() == old(self).ui_cam(),
    {
        self.camera.set_pos(pos.x, pos.y, pos.z);
    }

    /// Scrolls the interface camera by `delta` screens (its height, through
    /// `as i32`, times `delta` rows).
    pub fn page_ui(&mut self, delta: i32)
        requires
            fits_i32(wrap_i32(old(self).ui_cam().height as int) * delta),
            shift_ok(old(self).ui_cam(), 0, wrap_i32(old(self).ui_cam().height as int) * delta, 0),
        ensures
            final(self).same_but_cameras(*old(self)),
            final(self).ui_cam() == shifted(old(self).ui_cam(), 0, wrap_i32(old(self).ui_cam().height as int) * delta, 0),
            final(self).cam() == old(self).cam(),
    {
        let h = self.ui_camera.height() as i32;
        proof {
            let v = self.ui_camera@.height;
            assert(h as int == wrap_i32(v as int)) by (bit_vector)
                requires
                    h == v as i32,
            ;
        }
        self.ui_camera.shift(0, h * delta, 0);
    }

    /// Scrolls the interface camera by `delta` rows.
    pub fn scroll_ui(&mut self, delta: i32)
        requires
            shift_ok(old(self).ui_cam(), 0, delta as int, 0),
        ensures
            final(self).same_but_cameras(*old(self)),
            final(self).ui_cam() == shifted(old(self).ui_cam(), 0, delta as int, 0),
            final(self).cam() == old(self).cam(),
    {
        self.ui_camera.shift(0, delta, 0);
    }

    /// Moves the interface camera by `delta` columns.
    pub fn shift_ui(&mut self, delta: i32)
        requires
            shift_ok(old(self).ui_cam(), delta as int, 0, 0),
        ensures
            final(self).same_but_cameras(*old(self)),
            final(self).ui_cam() == shifted(old(self).ui_cam(), delta as int, 0, 0),
            final(self).cam() == old(self).cam(),
    {
        self.ui_camera.shift(delta, 0, 0);
    }
}

impl LayerStore {
    /// Whether the object under `key` can be moved by `pos`.
    fn can_move(&self, key: usize, pos: Position3D<i32>) -> (r: bool)
        requires
            self.wf(),
        ensures
            r == (self.units().contains_key(key) && moved_ok(object_pos(self.units()[key].object), pos)),
    {
        match self.units.get(key) {
            Some(u) => {
                let p = u.object.pos();
                let x = p.x as i64 + pos.x as i64;
                let y = p.y as i64 + pos.y as i64;
                let z = p.z as i64 + pos.z as i64;
                i32::MIN as i64 <= x && x <= i32::MAX as i64 && i32::MIN as i64 <= y && y <= i32::MAX as i64
                    && i32::MIN as i64 <= z && z <= i32::MAX as i64
            },
            None => false,
        }
    }

    /// Every id that holds a unit is below the layer's capacity.
    proof fn lemma_keys_in_range(&self)
        requires
            self.wf(),
        ensures
            forall|k: usize| #[trigger] self.units().contains_key(k) ==> k < LAYER_CAPACITY,
    {
        self.units.lemma_keys_below_capacity();
    }

    fn holds(&self, key: usize) -> (r: bool)
        requires
            self.wf(),
        ensures
            r == self.units().contains_key(key),
    {
        self.units.get(key).is_some()
    }
}

/// `after` is `before` with the object `data` describes stored under the
/// next id of `id`'s layer (see `Renderer::insert`).
pub open spec fn inserted(before: Renderer, after: Renderer, id: Arc<RenderUnitId>, data: ObjectData) -> bool {
    let l = id_layer(*id);
    let s0 = before.store(l);
    let s1 = after.store(l);
    let r = s0.next_id();
    &&& after.same_but(before, l)
    &&& s0.free().len() == 0 ==> s1.counter() == s0.counter() + 1 && s1.free().len() == 0
    &&& s0.free().len() > 0 ==> s1.counter() == s0.counter() && s1.free() == s0.free().update(0, s0.free().last()).drop_last()
    &&& after.layer(l).dom() == before.layer(l).dom().insert(r)
    &&& forall|k: usize| k != r && #[trigger] before.layer(l).contains_key(k) ==> after.layer(l)[k] == before.layer(l)[k]
    &&& after.layer(l)[r].id == id
    &&& made_from(after.layer(l)[r].object, data, before.canvas())
    &&& after.layer(l)[r].animated == data_is_dynamic(data)
}

/// `after` is `before` with the unit under `k` taken off layer `l`.
pub open spec fn removed(before: Renderer, after: Renderer, l: Layer, k: usize) -> bool {
    &&& after.same_but(before, l)
    &&& after.layer(l) == before.layer(l).remove(k)
    &&& after.store(l).counter() == before.store(l).counter()
    &&& after.store(l).free() == before.store(l).free()
}

/// What a move of the unit under `k` on layer `l` by `pos` does: moves it
/// when it is there and the move stays in range, else is refused.
pub open spec fn move_outcome(
    before: Renderer,
    after: Renderer,
    e0: Seq<Effect>,
    e1: Seq<Effect>,
    l: Layer,
    k: usize,
    pos: Position3D<i32>,
) -> bool {
    if before.layer(l).contains_key(k) && moved_ok(object_pos(before.layer(l)[k].object), pos) {
        &&& e1 == e0
        &&& after.same_but(before, l)
        &&& after.layer(l).dom() == before.layer(l).dom()
        &&& forall|j: usize| #[trigger] after.layer(l).contains_key(j) && j != k ==> after.layer(l)[j] == before.layer(l)[j]
        &&& object_pos(after.layer(l)[k].object) == moved(object_pos(before.layer(l)[k].object), pos)
        &&& after.layer(l)[k].id == before.layer(l)[k].id
        &&& after.layer(l)[k].animated == before.layer(l)[k].animated
    } else {
        after == before && e1 == e0.push(Effect::Refused)
    }
}

/// What moving the unit under `k` from layer `from` to layer `to` does:
/// refused when it is not there or `to` has no free id at or after `k`;
/// else it leaves `from` and is stored on `to` under that id (see
/// `Renderer::move_layer`).
pub open spec fn layer_move_outcome(
    before: Renderer,
    after: Renderer,
    e0: Seq<Effect>,
    e1: Seq<Effect>,
    from: Layer,
    k: usize,
    to: Layer,
) -> bool {
    let left = if from == to { before.layer(from).remove(k) } else { before.layer(to) };
    let j = first_free(left, k as nat);
    if before.layer(from).contains_key(k) && j < LAYER_CAPACITY {
        &&& e1 == e0
        &&& forall|m: Layer| m != from && m != to ==> #[trigger] after.store(m) == before.store(m)
        &&& after.canvas() == before.canvas()
        &&& after.colors() == before.colors()
        &&& after.cam() == before.cam()
        &&& after.ui_cam() == before.ui_cam()
        &&& from != to ==> after.layer(from) == before.layer(from).remove(k)
        &&& (to == Layer::Ui && j == k) ==> after.layer(to) == left
        &&& !(to == Layer::Ui && j == k) ==> after.layer(to) == left.insert(j as usize, before.layer(from)[k])
    } else {
        after == before && e1 == e0.push(Effect::Refused)
    }
}

/// What giving the unit under `k` on layer `l` new data does: nothing when
/// it is not there, refused when the data cannot be laid out, else the
/// unit's object is made anew from the data.
pub open spec fn update_outcome(
    before: Renderer,
    after: Renderer,
    e0: Seq<Effect>,
    e1: Seq<Effect>,
    l: Layer,
    k: usize,
    data: ObjectData,
) -> bool {
    if !before.layer(l).contains_key(k) {
        after == before && e1 == e0
    } else if data_ok(data, before.canvas()) && data_wf(data) {
        &&& e1 == e0
        &&& after.same_but(before, l)
        &&& after.layer(l).dom() == before.layer(l).dom()
        &&& forall|j: usize| #[trigger] after.layer(l).contains_key(j) && j != k ==> after.layer(l)[j] == before.layer(l)[j]
        &&& made_from(after.layer(l)[k].object, data, before.canvas())
        &&& after.layer(l)[k].id == before.layer(l)[k].id
        &&& after.layer(l)[k].animated == before.layer(l)[k].animated
    } else {
        after == before && e1 == e0.push(Effect::Refused)
    }
}

/// What moving a camera by `(x, y, z)` does: when it stays in range only
/// that camera moves (the world camera when `world`), else it is refused.
pub open spec fn camera_outcome(
    before: Renderer,
    after: Renderer,
    e0: Seq<Effect>,
    e1: Seq<Effect>,
    world: bool,
    x: int,
    y: int,
    z: int,
) -> bool {
    let cam = if world { before.cam() } else { before.ui_cam() };
    if fits_i32(x) && fits_i32(y) && fits_i32(z) && shift_ok(cam, x, y, z) {
        &&& e1 == e0
        &&& after.same_but_cameras(before)
        &&& world ==> after.cam() == shifted(cam, x, y, z) && after.ui_cam() == before.ui_cam()
        &&& !world ==> after.ui_cam() == shifted(cam, x, y, z) && after.cam() == before.cam()
    } else {
        after == before && e1 == e0.push(Effect::Refused)
    }
}

/// Where a batch of `n` signals takes its `k`-th signal from: the first,
/// then the others from the last back.
pub open spec fn batch_index(n: int, k: int) -> int {
    if k == 0 {
        0
    } else {
        n - k
    }
}

/// `rs` and `es` run from `(r0, e0)` to `(r1, e1)` in `n` steps.
pub open spec fn chain_ends(
    rs: Seq<Renderer>,
    es: Seq<Seq<Effect>>,
    n: int,
    r0: Renderer,
    e0: Seq<Effect>,
    r1: Renderer,
    e1: Seq<Effect>,
) -> bool {
    &&& rs.len() == n + 1
    &&& es.len() == n + 1
    &&& rs[0] == r0
    &&& es[0] == e0
    &&& rs[n] == r1
    &&& es[n] == e1
}

/// `r1`, with the effects `e1`, is what carrying out `msg` on `r0`, with
/// the effects `e0` asked for before, gives (see `Renderer::dispatch`):
/// the effects asked for before are kept and the renderer stays
/// consistent; a sequence carries out its signals in order and a batch
/// its first signal, then the others from the last back, each on what the
/// one before left.
pub open spec fn dispatched(r0: Renderer, e0: Seq<Effect>, msg: RenderSignal, r1: Renderer, e1: Seq<Effect>) -> bool
    decreases msg,
{
    &&& r1.wf()
    &&& e1.len() >= e0.len()
    &&& e1.subrange(0, e0.len() as int) == e0
    &&& match msg {
        RenderSignal::Sequence(v) => exists|rs: Seq<Renderer>, es: Seq<Seq<Effect>>|
            #[trigger] chain_ends(rs, es, v@.len() as int, r0, e0, r1, e1) && forall|k: int|
                #![trigger v@[k]]
                0 <= k < v@.len() ==> dispatched(rs[k], es[k], v@[k], rs[k + 1], es[k + 1]),
        RenderSignal::Batch(v) => exists|rs: Seq<Renderer>, es: Seq<Seq<Effect>>|
            #[trigger] chain_ends(rs, es, v@.len() as int, r0, e0, r1, e1) && forall|k: int|
                #![trigger v@[batch_index(v@.len() as int, k)]]
                0 <= k < v@.len() ==> dispatched(
                    rs[k],
                    es[k],
                    v@[batch_index(v@.len() as int, k)],
                    rs[k + 1],
                    es[k + 1],
                ),
        RenderSignal::TermSizeChange(c, r) => {
            &&& r1.canvas() == (Canvas { width: c as usize, height: r as usize })
            &&& e1 == e0.push(Effect::Send(Event::Other(OtherEvent::ScreenSizeChange { width: c, height: r })))
        },
        RenderSignal::Foreground(c) => r1.colors() == (c, r0.colors().1),
        RenderSignal::Background(c) => r1.colors() == (r0.colors().0, c),
        RenderSignal::Clear => {
            &&& forall|l: Layer| #[trigger] r1.layer(l) == Map::<usize, RenderUnit>::empty()
            &&& e1 == e0.push(Effect::ClearScreen)
        },
        RenderSignal::SetCamera(p) => r1.cam() == (CameraState { x: p.x, y: p.y, z: p.z, ..r0.cam() }),
        RenderSignal::Redraw => r1 == r0 && e1 == e0,
        RenderSignal::Insert(id, data) => if r0.store(id_layer(*id)).has_room() && data_ok(data, r0.canvas()) && data_wf(data) {
            inserted(r0, r1, id, data) && e1 == e0
        } else {
            r1 == r0 && e1 == e0.push(Effect::Refused)
        },
        RenderSignal::Remove(id) => e1 == e0 && exists|k: usize| #[trigger] removed(r0, r1, id_layer(*id), k),
        RenderSignal::Move(id, pos) => exists|k: usize| #[trigger] move_outcome(r0, r1, e0, e1, id_layer(*id), k, pos),
        RenderSignal::MoveLayer(id, to) => exists|k: usize| #[trigger] layer_move_outcome(r0, r1, e0, e1, id_layer(*id), k, to),
        RenderSignal::Update(id, data) => exists|k: usize| #[trigger] update_outcome(r0, r1, e0, e1, id_layer(*id), k, data),
        RenderSignal::MoveCamera(p) => camera_outcome(r0, r1, e0, e1, true, p.x as int, p.y as int, p.z as int),
        RenderSignal::PageUI(d) => camera_outcome(r0, r1, e0, e1, false, 0, wrap_i32(r0.ui_cam().height as int) * d, 0),
        RenderSignal::ScrollUI(d) => camera_outcome(r0, r1, e0, e1, false, 0, d as int, 0),
        RenderSignal::ShiftUI(d) => camera_outcome(r0, r1, e0, e1, false, d as int, 0, 0),
    }
}

impl Renderer {
    /// Carries out one signal. A signal whose id holds nothing where it is
    /// needed, whose object cannot be made or laid out, that would move
    /// something out of the `i32` range or leave a layer without a free id
    /// is dropped with `Effect::Refused`. A batch is carried out first item
    /// first, then from the last item back; a sequence in order. The
    /// effects asked for are appended to `effects`.
    pub fn dispatch(&mut self, msg: RenderSignal, effects: &mut Vec<Effect>)
        requires
            old(self).wf(),
        ensures
            final(self).wf(),
            dispatched(*old(self), old(effects)@, msg, *final(self), final(effects)@),
        decreases msg,
    {
        let ghost before = effects@;
        match msg {
            RenderSignal::Batch(batch) => {
                let ghost orig = batch@;
                let ghost n = orig.len() as int;
                let ghost mut rs: Seq<Renderer> = seq![*self];
                let ghost mut es: Seq<Seq<Effect>> = seq![effects@];
                let mut rest = batch;
                if rest.len() > 0 {
                    let first = rest.remove(0);
                    proof {
                        assert(first == orig[0]);
                    }
                    let ghost mid = effects@;
                    self.dispatch(first, effects);
                    proof {
                        assert(effects@.subrange(0, before.len() as int) =~= mid.subrange(0, before.len() as int));
                        rs = rs.push(*self);
                        es = es.push(effects@);
                        assert(orig[batch_index(n, 0)] == first);
                    }
                    while rest.len() > 0
                        invariant
                            self.wf(),
                            n == orig.len(),
                            forall|i: int| 0 <= i < rest@.len() ==> #[trigger] rest@[i] == orig[i + 1],
                            rest@.len() < orig.len(),
                            msg matches RenderSignal::Batch(b) && b@ == orig,
                            effects@.len() >= before.len(),
                            effects@.subrange(0, before.len() as int) == before,
                            rs.len() == n - rest@.len() + 1,
                            es.len() == rs.len(),
                            rs[0] == *old(self),
                            es[0] == before,
                            rs.last() == *self,
                            es.last() == effects@,
                            forall|k: int| 0 <= k < rs.len() - 1 ==> #[trigger] dispatched(rs[k], es[k], orig[batch_index(n, k)], rs[k + 1], es[k + 1]),
                        decreases rest@.len(),
                    {
                        let ghost len = rest@.len();
                        let m = rest.pop().unwrap();
                        proof {
                            assert(m == orig[len as int]);
                            assert(batch_index(n, n - len) == len);
                        }
                        let ghost mid = effects@;
                        self.dispatch(m, effects);
                        proof {
                            assert(effects@.subrange(0, before.len() as int) =~= mid.subrange(0, before.len() as int));
                            let ghost k0 = rs.len() - 1;
                            rs = rs.push(*self);
                            es = es.push(effects@);
                            assert(dispatched(rs[k0], es[k0], orig[batch_index(n, k0)], rs[k0 + 1], es[k0 + 1]));
                        }
                    }
                }
                proof {
                    assert(chain_ends(rs, es, n, *old(self), before, *self, effects@));
                    assert(msg->Batch_0@ == orig);
                    assert(forall|k: int|
                        #![trigger rs[k]]
                        0 <= k < n ==> dispatched(rs[k], es[k], orig[batch_index(n, k)], rs[k + 1], es[k + 1]));
                }
            },
            RenderSignal::Sequence(seq) => {
                let ghost orig = seq@;
                let mut rest = seq;
                let ghost mut taken: int = 0;
                let ghost mut rs: Seq<Renderer> = seq![*self];
                let ghost mut es: Seq<Seq<Effect>> = seq![effects@];
                while rest.len() > 0
                    invariant
                        self.wf(),
                        0 <= taken <= orig.len(),
                        rest@ == orig.subrange(taken, orig.len() as int),
                        msg matches RenderSignal::Sequence(b) && b@ == orig,
                        effects@.len() >= before.len(),
                        effects@.subrange(0, before.len() as int) == before,
                        rs.len() == taken + 1,
                        es.len() == taken + 1,
                        rs[0] == *old(self),
                        es[0] == before,
                        rs[taken] == *self,
                        es[taken] == effects@,
                        forall|k: int| 0 <= k < taken ==> #[trigger] dispatched(rs[k], es[k], orig[k], rs[k + 1], es[k + 1]),
                    decreases rest@.len(),
                {
                    let m = rest.remove(0);
                    let ghost t0 = taken;
                    proof {
                        assert(m == orig[taken]);
                        taken = taken + 1;
                        assert(rest@ =~= orig.subrange(taken, orig.len() as int));
                    }
                    let ghost mid = effects@;
                    self.dispatch(m, effects);
                    proof {
                        assert(effects@.subrange(0, before.len() as int) =~= mid.subrange(0, before.len() as int));
                        rs = rs.push(*self);
                        es = es.push(effects@);
                        assert(dispatched(rs[t0], es[t0], orig[t0], rs[t0 + 1], es[t0 + 1]));
                    }
                }
                proof {
                    assert(taken == orig.len());
                    assert(chain_ends(rs, es, orig.len() as int, *old(self), before, *self, effects@));
                    assert(msg->Sequence_0@ == orig);
                    assert(forall|k: int| #![trigger rs[k]] 0 <= k < taken ==> dispatched(rs[k], es[k], orig[k], rs[k + 1], es[k + 1]));
                }
            },
            RenderSignal::TermSizeChange(c, r) => {
                let e = self.term_size_change(c, r);
                effects.push(Effect::Send(e));
                proof {
                    self.lemma_wf_unchanged(*old(self));
                }
            },
            RenderSignal::Insert(id, data) => {
                let layer = id.layer();
                if self.has_room(layer) && data_fits(&data, &self.canvas) {
                    self.insert(id, data);
                } else {
                    effects.push(Effect::Refused);
                }
            },
            RenderSignal::Background(c) => {
                self.change_bg(c);
                proof {
                    self.lemma_wf_unchanged(*old(self));
                }
            },
            RenderSignal::Foreground(c) => {
                self.change_fg(c);
                proof {
                    self.lemma_wf_unchanged(*old(self));
                }
            },
            RenderSignal::Remove(key) => {
                let layer = key.layer();
                let k = key.load();
                self.remove(layer, k);
                assert(removed(*old(self), *self, id_layer(*key), k));
            },
            RenderSignal::Clear => {
                effects.push(Effect::ClearScreen);
                self.clear();
            },
            RenderSignal::Redraw => {},
            RenderSignal::Move(id, pos) => {
                let layer = id.layer();
                let k = id.load();
                proof {
                    self.lemma_wf_layers();
                }
                if self.store_ref(layer).can_move(k, pos) {
                    self.move_object(layer, k, pos);
                } else {
                    effects.push(Effect::Refused);
                }
                assert(move_outcome(*old(self), *self, old(effects)@, effects@, id_layer(*id), k, pos));
            },
            RenderSignal::MoveLayer(id, to) => {
                let from = id.layer();
                let k = id.load();
                proof {
                    self.lemma_wf_layers();
                }
                if !self.store_ref(from).holds(k) {
                    effects.push(Effect::Refused);
                } else if from == to {
                    proof {
                        self.store(from).lemma_keys_in_range();
                        assert(!self.layer(from).remove(k).dom().contains(k));
                        assert(first_free(self.layer(from).remove(k), k as nat) == k);
                    }
                    self.move_layer(from, k, to);
                } else {
                    match self.store_ref(to).probe(k) {
                        Some(_) => self.move_layer(from, k, to),
                        None => effects.push(Effect::Refused),
                    }
                }
                assert(layer_move_outcome(*old(self), *self, old(effects)@, effects@, id_layer(*id), k, to));
            },
            RenderSignal::MoveCamera(pos) => {
                if can_shift(&self.camera, pos.x, pos.y, pos.z) {
                    self.move_camera(pos);
                    proof {
                        self.lemma_wf_unchanged(*old(self));
                    }
                } else {
                    effects.push(Effect::Refused);
                }
            },
            RenderSignal::PageUI(delta) => {
                let h = self.ui_camera.height() as i32;
                proof {
                    let v = self.ui_camera@.height;
                    assert(h as int == wrap_i32(v as int)) by (bit_vector)
                        requires
                            h == v as i32,
                    ;
                }
                let hh = h as i64;
                let dd = delta as i64;
                assert(-0x8000_0000 * 0x8000_0000 <= hh * dd <= 0x8000_0000 * 0x8000_0000) by (nonlinear_arith)
                    requires
                        -0x8000_0000 <= hh <= 0x7fff_ffff,
                        -0x8000_0000 <= dd <= 0x7fff_ffff,
                ;
                let prod = hh * dd;
                if i32::MIN as i64 <= prod && prod <= i32::MAX as i64 && can_shift(&self.ui_camera, 0, prod as i32, 0) {
                    self.page_ui(delta);
                    proof {
                        self.lemma_wf_unchanged(*old(self));
                    }
                } else {
                    effects.push(Effect::Refused);
                }
            },
            RenderSignal::ScrollUI(delta) => {
                if can_shift(&self.ui_camera, 0, delta, 0) {
                    self.scroll_ui(delta);
                    proof {
                        self.lemma_wf_unchanged(*old(self));
                    }
                } else {
                    effects.push(Effect::Refused);
                }
            },
            RenderSignal::ShiftUI(delta) => {
                if can_shift(&self.ui_camera, delta, 0, 0) {
                    self.shift_ui(delta);
                    proof {
                        self.lemma_wf_unchanged(*old(self));
                    }
                } else {
                    effects.push(Effect::Refused);
                }
            },
            RenderSignal::SetCamera(pos) => {
                self.set_camera(pos);
                proof {
                    self.lemma_wf_unchanged(*old(self));
                }
            },
            RenderSignal::Update(id, data) => {
                let layer = id.layer();
                let k = id.load();
                proof {
                    self.lemma_wf_layers();
                }
                let ghost d = data;
                if self.store_ref(layer).holds(k) {
                    if data_fits(&data, &self.canvas) {
                        self.update_object(layer, k, data);
                    } else {
                        effects.push(Effect::Refused);
                    }
                }
                assert(update_outcome(*old(self), *self, old(effects)@, effects@, id_layer(*id), k, d));
            },
        }
        proof {
            assert(effects@.subrange(0, before.len() as int) =~= before);
        }
    }

    /// With the same stores, the renderer is as consistent as before.
    proof fn lemma_wf_unchanged(&self, old: Renderer)
        requires
            old.wf(),
            forall|l: Layer| #[trigger] self.store(l) == old.store(l),
        ensures
            self.wf(),
    {
        old.lemma_wf_layers();
        assert forall|l: Layer| #[trigger] self.store(l).wf() by {
            assert(self.store(l) == old.store(l));
        }
        self.lemma_wf_stores();
    }
}

/// `after` is `before` moved on by one tick: the same ids, each unit with
/// the same id, animation and position, and a unit that is not animated
/// unchanged.
pub open spec fn ticked(before: Map<usize, RenderUnit>, after: Map<usize, RenderUnit>) -> bool {
    &&& after.dom() == before.dom()
    &&& forall|k: usize| #[trigger] before.contains_key(k) ==> unit_ticked(before[k], after[k])
}

/// One unit after a tick: the same id, animation and position; unchanged
/// when not animated, else updated once, whether it moved or not.
pub open spec fn unit_ticked(b: RenderUnit, a: RenderUnit) -> bool {
    &&& a.id == b.id
    &&& a.animated == b.animated
    &&& object_pos(a.object) == object_pos(b.object)
    &&& object_wf(a.object)
    &&& (!b.animated ==> a == b)
    &&& (b.animated ==> updated(b.object, a.object, true) || updated(b.object, a.object, false))
}

/// Some animated unit moved on.
pub open spec fn moved_some(before: Map<usize, RenderUnit>, after: Map<usize, RenderUnit>) -> bool {
    exists|k: usize|
        before.contains_key(k) && before[k].animated && #[trigger] updated(before[k].object, after[k].object, true)
}

/// No animated unit moved on.
pub open spec fn moved_none(before: Map<usize, RenderUnit>, after: Map<usize, RenderUnit>) -> bool {
    forall|k: usize|
        #[trigger] before.contains_key(k) && before[k].animated ==> updated(before[k].object, after[k].object, false)
}

/// The plans of one layer's units, each with its id, and how many units
/// the layer holds.
pub struct LayerFrame {
    pub keys: Vec<usize>,
    pub plans: Vec<DrawPlan>,
    pub count: usize,
}

/// `f` draws `units` with `cam` on `can`: one plan for each unit the
/// camera shows (and that can be drawn), no id twice, each plan the
/// unit's.
pub open spec fn frames_layer(f: LayerFrame, units: Map<usize, RenderUnit>, can: Canvas, cam: CameraState) -> bool {
    &&& f.count == units.dom().len()
    &&& f.keys@.len() == f.plans@.len()
    &&& f.keys@.no_duplicates()
    &&& forall|i: int| 0 <= i < f.keys@.len() ==> {
        &&& units.contains_key(#[trigger] f.keys@[i])
        &&& shows(cam, units[f.keys@[i]].object, can)
        &&& plan_of(f.plans@[i], units[f.keys@[i]].object, can, cam)
    }
    &&& forall|k: usize| #[trigger] units.contains_key(k) && shows(cam, units[k].object, can) && drawable(
        units[k].object,
        can,
        cam,
    ) ==> f.keys@.contains(k)
}

impl LayerStore {
    /// Moves every animated unit on by one tick; `true` when one stepped
    /// to its next picture.
    fn tick(&mut self) -> (r: bool)
        requires
            old(self).wf(),
        ensures
            final(self).wf(),
            ticked(old(self).units(), final(self).units()),
            r ==> moved_some(old(self).units(), final(self).units()),
            !r ==> moved_none(old(self).units(), final(self).units()),
            final(self).counter() == old(self).counter(),
            final(self).free() == old(self).free(),
    {
        let keys = self.units.all_keys();
        let ghost u0 = self.units();
        let mut changed = false;
        let mut i: usize = 0;
        while i < keys.len()
            invariant
                self.wf(),
                0 <= i <= keys@.len(),
                keys@.to_set() == u0.dom(),
                keys@.no_duplicates(),
                u0 == old(self).units(),
                self.units().dom() == u0.dom(),
                forall|k: usize| #[trigger] u0.contains_key(k) && keys@.take(i as int).contains(k) ==> unit_ticked(u0[k], self.units()[k]),
                forall|k: usize| #[trigger] u0.contains_key(k) && !keys@.take(i as int).contains(k) ==> self.units()[k] == u0[k],
                changed ==> exists|w: usize| #[trigger] u0.contains_key(w) && keys@.take(i as int).contains(w) && u0[w].animated && updated(u0[w].object, self.units()[w].object, true),
                !changed ==> forall|k: usize| #[trigger] u0.contains_key(k) && keys@.take(i as int).contains(k) && u0[k].animated ==> updated(u0[k].object, self.units()[k].object, false),
                self.counter() == old(self).counter(),
                self.free() == old(self).free(),
            decreases keys@.len() - i,
        {
            let k = keys[i];
            let ghost prev = self.units();
            let ghost was_changed = changed;
            proof {
                assert(keys@.to_set().contains(k));
                assert(keys@.take(i + 1) =~= keys@.take(i as int).push(k));
                assert(!keys@.take(i as int).contains(k)) by {
                    if keys@.take(i as int).contains(k) {
                        let j = choose|j: int| 0 <= j < i && keys@.take(i as int)[j] == k;
                        assert(keys@[j] == keys@[i as int]);
                    }
                }
            }
            let mut moved = false;
            match self.units.get_mut(k) {
                Some(u) => {
                    if u.animated {
                        if u.object.update() {
                            moved = true;
                        }
                    }
                },
                None => {},
            }
            if moved {
                changed = true;
            }
            proof {
                assert(self.units().dom() =~= prev.dom());
                assert(self.units()[k] == prev[k] || (u0[k].animated && updated(u0[k].object, self.units()[k].object, moved)));
                assert(forall|k2: usize| k2 != k && prev.contains_key(k2) ==> self.units()[k2] == prev[k2]);
                assert(keys@.take(i + 1)[i as int] == k);
                assert(keys@.take(i + 1).contains(k));
                if moved {
                    assert(u0[k].animated);
                    assert(updated(u0[k].object, self.units()[k].object, true));
                } else if was_changed {
                    let w = choose|w: usize|
                        #[trigger] u0.contains_key(w) && keys@.take(i as int).contains(w) && u0[w].animated && updated(u0[w].object, prev[w].object, true);
                    assert(w != k);
                    assert(self.units()[w] == prev[w]);
                    assert(keys@.take(i + 1).contains(w));
                }
                assert forall|k2: usize| #[trigger] u0.contains_key(k2) && !keys@.take(i + 1).contains(k2) implies self.units()[k2] == u0[k2] by {
                    assert(k2 != k);
                    assert(!keys@.take(i as int).contains(k2)) by {
                        if keys@.take(i as int).contains(k2) {
                            let j = choose|j: int| 0 <= j < i && keys@.take(i as int)[j] == k2;
                            assert(keys@.take(i + 1)[j] == k2);
                        }
                    }
                }
                assert forall|k2: usize| #[trigger] u0.contains_key(k2) && keys@.take(i + 1).contains(k2) implies unit_ticked(u0[k2], self.units()[k2]) by {
                    if k2 != k {
                        assert(keys@.take(i as int).contains(k2));
                    }
                }
            }
            i += 1;
        }
        proof {
            assert(keys@.take(keys@.len() as int) =~= keys@);
            assert forall|k: usize| #[trigger] u0.contains_key(k) implies keys@.take(keys@.len() as int).contains(k) by {
                assert(keys@.to_set().contains(k));
            }
            if changed {
                let w = choose|w: usize|
                    #[trigger] u0.contains_key(w) && keys@.take(i as int).contains(w) && u0[w].animated && updated(u0[w].object, self.units()[w].object, true);
                assert(u0.contains_key(w) && u0[w].animated && updated(u0[w].object, self.units()[w].object, true));
            }
        }
        changed
    }

    /// The plans for drawing this layer's units with `cam` on `can`.
    fn frame(&self, can: &Canvas, cam: &Camera) -> (r: LayerFrame)
        requires
            self.wf(),
        ensures
            frames_layer(r, self.units(), *can, cam@),
    {
        let keys = self.units.all_keys();
        proof {
            keys@.unique_seq_to_set();
        }
        let mut out_keys: Vec<usize> = Vec::new();
        let mut plans: Vec<DrawPlan> = Vec::new();
        let mut count: usize = 0;
        let mut i: usize = 0;
        while i < keys.len()
            invariant
                self.wf(),
                keys@.to_set() == self.units().dom(),
                keys@.no_duplicates(),
                keys@.len() == self.units().dom().len(),
                0 <= i <= keys@.len(),
                count == i,
                out_keys@.len() == plans@.len(),
                out_keys@.no_duplicates(),
                forall|j: int| 0 <= j < out_keys@.len() ==> #[trigger] keys@.take(i as int).contains(out_keys@[j]),
                forall|j: int| 0 <= j < out_keys@.len() ==> {
                    &&& self.units().contains_key(#[trigger] out_keys@[j])
                    &&& shows(cam@, self.units()[out_keys@[j]].object, *can)
                    &&& plan_of(plans@[j], self.units()[out_keys@[j]].object, *can, cam@)
                },
                forall|j: int| 0 <= j < i ==> {
                    let k = #[trigger] keys@[j];
                    shows(cam@, self.units()[k].object, *can) && drawable(self.units()[k].object, *can, cam@) ==> out_keys@.contains(k)
                },
            decreases keys@.len() - i,
        {
            let k = keys[i];
            proof {
                assert(keys@.to_set().contains(k));
            }
            let ghost prev_keys = out_keys@;
            match self.units.get(k) {
                Some(u) => {
                    if u.object.can_draw(can, cam) {
                        match u.object.draw(can, cam) {
                            Some(plan) => {
                                proof {
                                    assert forall|j: int| 0 <= j < prev_keys.len() implies prev_keys[j] != k by {
                                        assert(keys@.take(i as int).contains(prev_keys[j]));
                                        let t = choose|t: int| 0 <= t < i && keys@[t] == prev_keys[j];
                                    }
                                }
                                out_keys.push(k);
                                plans.push(plan);
                                proof {
                                    assert(out_keys@[out_keys@.len() - 1] == k);
                                }
                            },
                            None => {},
                        }
                    }
                },
                None => {},
            }
            proof {
                assert forall|j: int| 0 <= j < out_keys@.len() implies #[trigger] keys@.take(i + 1).contains(out_keys@[j]) by {
                    if j < prev_keys.len() {
                        assert(keys@.take(i as int).contains(prev_keys[j]));
                        let t = choose|t: int| 0 <= t < i && keys@.take(i as int)[t] == prev_keys[j];
                        assert(keys@.take(i + 1)[t] == prev_keys[j]);
                    } else {
                        assert(keys@.take(i + 1)[i as int] == k);
                    }
                }
                assert forall|j: int| 0 <= j < i + 1 implies {
                    let kk = #[trigger] keys@[j];
                    shows(cam@, self.units()[kk].object, *can) && drawable(self.units()[kk].object, *can, cam@) ==> out_keys@.contains(kk)
                } by {
                    if j < i {
                        if out_keys@.len() > prev_keys.len() {
                            let kk = keys@[j];
                            if prev_keys.contains(kk) {
                                let t = choose|t: int| 0 <= t < prev_keys.len() && prev_keys[t] == kk;
                                assert(out_keys@[t] == kk);
                            }
                        }
                    } else {
                        if out_keys@.len() > prev_keys.len() {
                            assert(out_keys@[out_keys@.len() - 1] == k);
                        }
                    }
                }
            }
            count += 1;
            i += 1;
        }
        proof {
            assert forall|k: usize| #[trigger] self.units().contains_key(k) && shows(cam@, self.units()[k].object, *can) && drawable(self.units()[k].object, *can, cam@) implies out_keys@.contains(k) by {
                assert(keys@.to_set().contains(k));
                let t = choose|t: int| 0 <= t < keys@.len() && keys@[t] == k;
            }
        }
        LayerFrame { keys: out_keys, plans, count }
    }
}

/// Everything a frame shows: each layer's plans, back to front, the
/// number of units, the canvas, and the two cameras.
pub struct Frame {
    pub background: LayerFrame,
    pub middleground: LayerFrame,
    pub foreground: LayerFrame,
    pub ui: LayerFrame,
    pub count: usize,
    pub canvas: Canvas,
    pub cam: CameraState,
    pub ui_cam: CameraState,
}

impl Renderer {
    /// Moves every animated unit on by one tick; `true` when one stepped
    /// to its next picture and the screen must be drawn again.
    pub fn tick(&mut self) -> (r: bool)
        requires
            old(self).wf(),
        ensures
            final(self).wf(),
            forall|l: Layer| #[trigger] ticked(old(self).layer(l), final(self).layer(l)),
            r ==> exists|l: Layer| #[trigger] moved_some(old(self).layer(l), final(self).layer(l)),
            !r ==> forall|l: Layer| #[trigger] moved_none(old(self).layer(l), final(self).layer(l)),
            final(self).canvas() == old(self).canvas(),
            final(self).colors() == old(self).colors(),
            final(self).cam() == old(self).cam(),
            final(self).ui_cam() == old(self).ui_cam(),
    {
        let a = self.background.tick();
        let b = self.middleground.tick();
        let c = self.foreground.tick();
        let d = self.ui.tick();
        proof {
            assert forall|l: Layer| #[trigger] ticked(old(self).layer(l), self.layer(l)) by {
                match l {
                    Layer::Background => {},
                    Layer::Middleground => {},
                    Layer::Foreground => {},
                    Layer::Ui => {},
                }
            }
        }
        proof {
            if a {
                assert(moved_some(old(self).layer(Layer::Background), self.layer(Layer::Background)));
            } else if b {
                assert(moved_some(old(self).layer(Layer::Middleground), self.layer(Layer::Middleground)));
            } else if c {
                assert(moved_some(old(self).layer(Layer::Foreground), self.layer(Layer::Foreground)));
            } else if d {
                assert(moved_some(old(self).layer(Layer::Ui), self.layer(Layer::Ui)));
            } else {
                assert forall|l: Layer| #[trigger] moved_none(old(self).layer(l), self.layer(l)) by {
                    match l {
                        Layer::Background => {},
                        Layer::Middleground => {},
                        Layer::Foreground => {},
                        Layer::Ui => {},
                    }
                }
            }
        }
        a || b || c || d
    }

    /// What the screen shows now: the world layers through the world
    /// camera, the interface layer through the interface camera.
    pub fn frame(&self) -> (r: Frame)
        requires
            self.wf(),
        ensures
            frames_layer(r.background, self.layer(Layer::Background), self.canvas(), self.cam()),
            frames_layer(r.middleground, self.layer(Layer::Middleground), self.canvas(), self.cam()),
            frames_layer(r.foreground, self.layer(Layer::Foreground), self.canvas(), self.cam()),
            frames_layer(r.ui, self.layer(Layer::Ui), self.canvas(), self.ui_cam()),
            r.count == r.background.count + r.middleground.count + r.foreground.count + r.ui.count,
            r.canvas == self.canvas(),
            r.cam == self.cam(),
            r.ui_cam == self.ui_cam(),
    {
        let background = self.background.frame(&self.canvas, &self.camera);
        let middleground = self.middleground.frame(&self.canvas, &self.camera);
        let foreground = self.foreground.frame(&self.canvas, &self.camera);
        let ui = self.ui.frame(&self.canvas, &self.ui_camera);
        proof {
            self.background.units.lemma_keys_below_capacity();
            self.middleground.units.lemma_keys_below_capacity();
            self.foreground.units.lemma_keys_below_capacity();
            self.ui.units.lemma_keys_below_capacity();
            lemma_dom_small(self.background.units());
            lemma_dom_small(self.middleground.units());
            lemma_dom_small(self.foreground.units());
            lemma_dom_small(self.ui.units());
        }
        let count = background.count + middleground.count + foreground.count + ui.count;
        Frame {
            background,
            middleground,
            foreground,
            ui,
            count,
            canvas: self.canvas,
            cam: self.camera.state(),
            ui_cam: self.ui_camera.state(),
        }
    }
}

/// A layer holds at most as many units as it has ids.
proof fn lemma_dom_small(units: Map<usize, RenderUnit>)
    requires
        forall|k: usize| #[trigger] units.contains_key(k) ==> k < LAYER_CAPACITY,
    ensures
        units.dom().len() <= LAYER_CAPACITY,
{
    let ids = vstd::set_lib::set_int_range(0, LAYER_CAPACITY as int);
    let f = |i: int| i as usize;
    let all = ids.map(f);
    vstd::set_lib::lemma_int_range(0, LAYER_CAPACITY as int);
    vstd::set_lib::lemma_map_size_bound(ids, all, f);
    assert forall|k: usize| units.dom().contains(k) implies all.contains(k) by {
        assert(ids.contains(k as int));
        assert(f(k as int) == k);
    }
    vstd::set_lib::lemma_len_subset(units.dom(), all);
}

/// Moving a camera and moving it back puts it where it was.
pub proof fn law_shift_back(cam: CameraState, x: int, y: int, z: int)
    requires
        shift_ok(cam, x, y, z),
    ensures
        shift_ok(shifted(cam, x, y, z), -x, -y, -z),
        shifted(shifted(cam, x, y, z), -x, -y, -z) == cam,
{
}

/// An object inserted under a free id and removed by that id leaves the
/// layer as it was.
pub proof fn law_remove_undoes_insert(units: Map<usize, RenderUnit>, id: usize, unit: RenderUnit)
    requires
        !units.contains_key(id),
    ensures
        units.insert(id, unit).remove(id) == units,
{
    assert(units.insert(id, unit).remove(id) =~= units);
}

/// With no ids given back, a layer gives out its counter, and after an
/// insertion (which moves the counter on) the next id is one more: two
/// insertions in a row get different ids.
pub proof fn law_ids_count_up(before: LayerStore, after: LayerStore)
    requires
        before.free().len() == 0,
        after.free().len() == 0,
        after.counter() == before.counter() + 1,
    ensures
        after.next_id() == before.next_id() + 1,
{
}

/// Shifting the interface moves its camera sideways: `ShiftUI(d)` adds `d`
/// to the interface camera's x and leaves its y, z and size, the world
/// camera, the layers and the effects alone. A shift out of the `i32`
/// range changes nothing and is refused.
pub proof fn law_shift_ui_moves_sideways(r0: Renderer, e0: Seq<Effect>, d: i32, r1: Renderer, e1: Seq<Effect>)
    requires
        dispatched(r0, e0, RenderSignal::ShiftUI(d), r1, e1),
    ensures
        fits_i32(r0.ui_cam().x + d) ==> {
            &&& r1.ui_cam() == (CameraState { x: (r0.ui_cam().x + d) as i32, ..r0.ui_cam() })
            &&& r1.cam() == r0.cam()
            &&& r1.colors() == r0.colors() && r1.canvas() == r0.canvas()
            &&& forall|l: Layer| #[trigger] r1.store(l) == r0.store(l)
            &&& e1 == e0
        },
        !fits_i32(r0.ui_cam().x + d) ==> r1 == r0 && e1 == e0.push(Effect::Refused),
{
}

/// Scrolling the interface moves its camera down: `ScrollUI(d)` adds `d`
/// to the interface camera's y and leaves its x, z and size, the world
/// camera, the layers and the effects alone. A scroll out of the `i32`
/// range changes nothing and is refused.
pub proof fn law_scroll_ui_moves_down(r0: Renderer, e0: Seq<Effect>, d: i32, r1: Renderer, e1: Seq<Effect>)
    requires
        dispatched(r0, e0, RenderSignal::ScrollUI(d), r1, e1),
    ensures
        fits_i32(r0.ui_cam().y + d) ==> {
            &&& r1.ui_cam() == (CameraState { y: (r0.ui_cam().y + d) as i32, ..r0.ui_cam() })
            &&& r1.cam() == r0.cam()
            &&& r1.colors() == r0.colors() && r1.canvas() == r0.canvas()
            &&& forall|l: Layer| #[trigger] r1.store(l) == r0.store(l)
            &&& e1 == e0
        },
        !fits_i32(r0.ui_cam().y + d) ==> r1 == r0 && e1 == e0.push(Effect::Refused),
{
}

/// Paging the interface scrolls it by whole screens: `PageUI(d)` adds `d`
/// times the interface camera's height (taken as an `i32`) to its y, and
/// leaves the rest as scrolling does. A page out of the `i32` range
/// changes nothing and is refused.
pub proof fn law_page_ui_moves_by_screens(r0: Renderer, e0: Seq<Effect>, d: i32, r1: Renderer, e1: Seq<Effect>)
    requires
        dispatched(r0, e0, RenderSignal::PageUI(d), r1, e1),
    ensures
        ({
            let step = wrap_i32(r0.ui_cam().height as int) * d;
            &&& fits_i32(step) && fits_i32(r0.ui_cam().y + step) ==> {
                &&& r1.ui_cam() == (CameraState { y: (r0.ui_cam().y + step) as i32, ..r0.ui_cam() })
                &&& r1.cam() == r0.cam()
                &&& e1 == e0
            }
            &&& !(fits_i32(step) && fits_i32(r0.ui_cam().y + step)) ==> r1 == r0 && e1 == e0.push(Effect::Refused)
        }),
{
}

/// Moving the world camera by `p` adds `p`'s coordinates to the world
/// camera's and leaves its size, the interface camera, the layers and the
/// effects alone; a move out of the `i32` range changes nothing and is
/// refused. Setting the world camera to `p` puts it there, size kept.
pub proof fn law_world_camera_moves(r0: Renderer, e0: Seq<Effect>, p: Position3D<i32>, r1: Renderer, e1: Seq<Effect>)
    ensures
        dispatched(r0, e0, RenderSignal::MoveCamera(p), r1, e1) ==> {
            let ok = fits_i32(r0.cam().x + p.x) && fits_i32(r0.cam().y + p.y) && fits_i32(r0.cam().z + p.z);
            &&& ok ==> {
                &&& r1.cam().x == r0.cam().x + p.x && r1.cam().y == r0.cam().y + p.y && r1.cam().z == r0.cam().z + p.z
                &&& r1.cam().width == r0.cam().width && r1.cam().height == r0.cam().height
                    && r1.cam().depth == r0.cam().depth
                &&& r1.ui_cam() == r0.ui_cam()
                &&& forall|l: Layer| #[trigger] r1.store(l) == r0.store(l)
                &&& e1 == e0
            }
            &&& !ok ==> r1 == r0 && e1 == e0.push(Effect::Refused)
        },
        dispatched(r0, e0, RenderSignal::SetCamera(p), r1, e1) ==> {
            &&& r1.cam().x == p.x && r1.cam().y == p.y && r1.cam().z == p.z
            &&& r1.cam().width == r0.cam().width && r1.cam().height == r0.cam().height
                && r1.cam().depth == r0.cam().depth
        },
{
}

/// The colour signals set one colour each: `Foreground(c)` the foreground,
/// `Background(c)` the background, the other kept. A size change sets the
/// canvas to the new columns and rows and sends the new size on; `Clear`
/// empties every layer and asks for the screen to be cleared; `Redraw`
/// changes nothing.
pub proof fn law_plain_signals(r0: Renderer, e0: Seq<Effect>, r1: Renderer, e1: Seq<Effect>, c: u8, cols: u32, rows: u32)
    ensures
        dispatched(r0, e0, RenderSignal::Foreground(c), r1, e1) ==> r1.colors().0 == c && r1.colors().1
            == r0.colors().1,
        dispatched(r0, e0, RenderSignal::Background(c), r1, e1) ==> r1.colors().1 == c && r1.colors().0
            == r0.colors().0,
        dispatched(r0, e0, RenderSignal::TermSizeChange(cols, rows), r1, e1) ==> {
            &&& r1.canvas().width == cols && r1.canvas().height == rows
            &&& e1.len() == e0.len() + 1
            &&& e1.last() == Effect::Send(Event::Other(OtherEvent::ScreenSizeChange { width: cols, height: rows }))
        },
        dispatched(r0, e0, RenderSignal::Clear, r1, e1) ==> {
            &&& forall|l: Layer| #[trigger] r1.layer(l).dom() == Set::<usize>::empty()
            &&& e1 == e0.push(Effect::ClearScreen)
        },
        dispatched(r0, e0, RenderSignal::Redraw, r1, e1) ==> r1 == r0 && e1 == e0,
{
    if dispatched(r0, e0, RenderSignal::Clear, r1, e1) {
        assert forall|l: Layer| #[trigger] r1.layer(l).dom() == Set::<usize>::empty() by {
            assert(r1.layer(l) == Map::<usize, RenderUnit>::empty());
        }
    }
}

/// The layer of the handle `id` points to.
spec fn handle_layer(id: Arc<RenderUnitId>) -> Layer {
    id_layer(*id)
}

/// Inserting an object on a layer with room, from data that can be laid
/// out, adds exactly one unit to the handle's layer, under the id the
/// layer gives next, holding the handle and an object made from the data;
/// every other unit, every other layer, the cameras, canvas and colours
/// stay, and nothing is asked of the screen. Otherwise nothing changes
/// and the insert is refused.
pub proof fn law_insert_adds_one_unit(
    r0: Renderer,
    e0: Seq<Effect>,
    id: Arc<RenderUnitId>,
    data: ObjectData,
    r1: Renderer,
    e1: Seq<Effect>,
)
    requires
        dispatched(r0, e0, RenderSignal::Insert(id, data), r1, e1),
    ensures
        ({
            let l = id_layer(*id);
            let k = r0.store(l).next_id();
            &&& r0.store(l).has_room() && data_ok(data, r0.canvas()) && data_wf(data) ==> {
                &&& e1 == e0
                &&& r1.layer(l).dom() == r0.layer(l).dom().insert(k)
                &&& forall|j: usize| j != k && #[trigger] r0.layer(l).contains_key(j) ==> r1.layer(l)[j] == r0.layer(l)[j]
                &&& r1.layer(l)[k].id == id
                &&& made_from(r1.layer(l)[k].object, data, r0.canvas())
                &&& forall|m: Layer| m != l ==> #[trigger] r1.store(m) == r0.store(m)
                &&& r1.cam() == r0.cam() && r1.ui_cam() == r0.ui_cam()
                &&& r1.canvas() == r0.canvas() && r1.colors() == r0.colors()
            }
            &&& !(r0.store(l).has_room() && data_ok(data, r0.canvas()) && data_wf(data)) ==> r1 == r0 && e1 == e0.push(Effect::Refused)
        }),
{
}

/// Removing takes at most one unit off the handle's layer, the one under
/// the id the handle holds, and changes nothing else; nothing is asked of
/// the screen.
pub proof fn law_remove_takes_one_unit(r0: Renderer, e0: Seq<Effect>, id: Arc<RenderUnitId>, r1: Renderer, e1: Seq<Effect>)
    requires
        dispatched(r0, e0, RenderSignal::Remove(id), r1, e1),
    ensures
        e1 == e0,
        exists|k: usize| #[trigger] r1.layer(id_layer(*id)) == r0.layer(id_layer(*id)).remove(k),
        forall|m: Layer| m != id_layer(*id) ==> #[trigger] r1.store(m) == r0.store(m),
        r1.cam() == r0.cam() && r1.ui_cam() == r0.ui_cam() && r1.canvas() == r0.canvas() && r1.colors() == r0.colors(),
{
    let k = choose|k: usize| #[trigger] removed(r0, r1, id_layer(*id), k);
    assert(r1.layer(id_layer(*id)) == r0.layer(id_layer(*id)).remove(k));
}

/// Moving a unit adds the move to its position, coordinate by coordinate,
/// and leaves its handle, the other units and the other layers alone; a
/// unit that is not there, or a move out of the `i32` range, changes
/// nothing and is refused.
pub proof fn law_move_adds_to_position(
    r0: Renderer,
    e0: Seq<Effect>,
    id: Arc<RenderUnitId>,
    by: Position3D<i32>,
    r1: Renderer,
    e1: Seq<Effect>,
)
    requires
        dispatched(r0, e0, RenderSignal::Move(id, by), r1, e1),
    ensures
        ({
            let l = id_layer(*id);
            exists|k: usize| {
                let p = object_pos(#[trigger] r0.layer(l)[k].object);
                let q = object_pos(r1.layer(l)[k].object);
                ||| r1 == r0 && e1 == e0.push(Effect::Refused)
                ||| {
                    &&& r0.layer(l).contains_key(k) && e1 == e0
                    &&& q.x == p.x + by.x && q.y == p.y + by.y && q.z == p.z + by.z
                    &&& r1.layer(l)[k].id == r0.layer(l)[k].id
                    &&& r1.layer(l).dom() == r0.layer(l).dom()
                    &&& forall|j: usize| #[trigger] r1.layer(l).contains_key(j) && j != k ==> r1.layer(l)[j] == r0.layer(l)[j]
                    &&& forall|m: Layer| m != l ==> #[trigger] r1.store(m) == r0.store(m)
                }
            }
        }),
{
    let l = handle_layer(id);
    let k = choose|k: usize| #[trigger] move_outcome(r0, r1, e0, e1, l, k, by);
    assert(move_outcome(r0, r1, e0, e1, l, k, by));
    let _ = r0.layer(l)[k];
}

/// Moving a unit to another layer: when it is not refused, the unit is
/// gone from its layer and, unless the other layer is the interface's,
/// stored there; no third layer changes.
pub proof fn law_layer_move_keeps_unit(
    r0: Renderer,
    e0: Seq<Effect>,
    id: Arc<RenderUnitId>,
    to: Layer,
    r1: Renderer,
    e1: Seq<Effect>,
)
    requires
        dispatched(r0, e0, RenderSignal::MoveLayer(id, to), r1, e1),
        id_layer(*id) != to,
    ensures
        ({
            let from = id_layer(*id);
            exists|k: usize| {
                ||| r1 == r0 && e1 == e0.push(Effect::Refused)
                ||| {
                    &&& #[trigger] r0.layer(from).contains_key(k) && e1 == e0
                    &&& r1.layer(from) == r0.layer(from).remove(k)
                    &&& to != Layer::Ui ==> exists|j: usize| r1.layer(to) == r0.layer(to).insert(j, r0.layer(from)[k])
                    &&& forall|m: Layer| m != from && m != to ==> #[trigger] r1.store(m) == r0.store(m)
                }
            }
        }),
{
    let from = handle_layer(id);
    let k = choose|k: usize| #[trigger] layer_move_outcome(r0, r1, e0, e1, from, k, to);
    assert(layer_move_outcome(r0, r1, e0, e1, from, k, to));
    if r0.layer(from).contains_key(k) && first_free(r0.layer(to), k as nat) < LAYER_CAPACITY && to != Layer::Ui {
        let j = first_free(r0.layer(to), k as nat);
        assert(r1.layer(to) == r0.layer(to).insert(j as usize, r0.layer(from)[k]));
    }
}

/// The first free id from `key` on is `key` itself or later, every id
/// between them is taken, and it is free itself unless the layer is full
/// from `key` on (then it is the capacity).
pub proof fn law_first_free_is_first(units: Map<usize, RenderUnit>, key: nat)
    requires
        key <= LAYER_CAPACITY,
    ensures
        key <= first_free(units, key) <= LAYER_CAPACITY,
        forall|j: usize| key <= j < first_free(units, key) ==> #[trigger] units.dom().contains(j),
        first_free(units, key) < LAYER_CAPACITY ==> !units.dom().contains(first_free(units, key) as usize),
    decreases LAYER_CAPACITY - key,
{
    if key < LAYER_CAPACITY && units.dom().contains(key as usize) {
        law_first_free_is_first(units, key + 1);
    }
}

/// A batch of `n` signals takes its first signal first, then the others
/// from the last back: step `k` (after the first) takes signal `n - k`.
pub proof fn law_batch_steps(n: int)
    requires
        n > 0,
    ensures
        batch_index(n, 0) == 0,
        forall|k: int| 1 <= k < n ==> #[trigger] batch_index(n, k) == n - k,
{
}

} // verus!
