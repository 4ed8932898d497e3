use std::sync::atomic::{AtomicUsize, Ordering};
use std::sync::Arc;
use vstd::prelude::*;

verus! {

/// The id a render unit holds before the renderer gives it one.
pub const UNINITIALIZED_RENDERUNITID_VALUE: usize = 0;

/// The layers drawn on top of one another, back to front.
#[derive(Clone, Copy, Hash, Debug, PartialEq, Eq, Structural, PartialOrd, Ord)]
pub enum Layer {
    Background,
    Middleground,
    Foreground,
    Ui,
}

/// The handle of something on screen: the layer it lives on, and the id
/// the renderer gave it there, shared between threads.
#[derive(Debug)]
pub enum RenderUnitId {
    Background(AtomicUsize),
    Middleground(AtomicUsize),
    Foreground(AtomicUsize),
    Ui(AtomicUsize),
}

/// The layer a handle belongs to.
pub open spec fn id_layer(id: RenderUnitId) -> Layer {
    match id {
        RenderUnitId::Background(_) => Layer::Background,
        RenderUnitId::Middleground(_) => Layer::Middleground,
        RenderUnitId::Foreground(_) => Layer::Foreground,
        RenderUnitId::Ui(_) => Layer::Ui,
    }
}

impl RenderUnitId {
    /// A fresh, shared handle on `layer`, not yet given an id.
    pub fn new(layer: Layer) -> (r: Arc<Self>)
        ensures
            id_layer(*r) == layer,
    {
        Arc::new(
            match layer {
                Layer::Background => RenderUnitId::Background(
                    AtomicUsize::new(UNINITIALIZED_RENDERUNITID_VALUE),
                ),
                Layer::Middleground => RenderUnitId::Middleground(
                    AtomicUsize::new(UNINITIALIZED_RENDERUNITID_VALUE),
                ),
                Layer::Foreground => RenderUnitId::Foreground(
                    AtomicUsize::new(UNINITIALIZED_RENDERUNITID_VALUE),
                ),
                Layer::Ui => RenderUnitId::Ui(AtomicUsize::new(UNINITIALIZED_RENDERUNITID_VALUE)),
            },
        )
    }

    /// A handle on `layer` holding id `val`.
    pub fn from_usize(val: usize, layer: Layer) -> (r: Self)
        ensures
            id_layer(r) == layer,
    {
        let val = AtomicUsize::new(val);
        match layer {
            Layer::Background => RenderUnitId::Background(val),
            Layer::Middleground => RenderUnitId::Middleground(val),
            Layer::Foreground => RenderUnitId::Foreground(val),
            Layer::Ui => RenderUnitId::Ui(val),
        }
    }

    /// A handle on `layer` around an existing atomic id.
    pub fn from_atomic(val: AtomicUsize, layer: Layer) -> (r: Self)
        ensures
            id_layer(r) == layer,
    {
        match layer {
            Layer::Background => RenderUnitId::Background(val),
            Layer::Middleground => RenderUnitId::Middleground(val),
            Layer::Foreground => RenderUnitId::Foreground(val),
            Layer::Ui => RenderUnitId::Ui(val),
        }
    }

    pub fn layer(&self) -> (r: Layer)
        ensures
            r == id_layer(*self),
    {
        match self {
            Self::Background(_) => Layer::Background,
            Self::Middleground(_) => Layer::Middleground,
            Self::Foreground(_) => Layer::Foreground,
            Self::Ui(_) => Layer::Ui,
        }
    }

    pub fn is_bg(&self) -> (r: bool)
        ensures
            r == (id_layer(*self) == Layer::Background),
    {
        match self {
            RenderUnitId::Background(_) => true,
            _ => false,
        }
    }

    pub fn is_mg(&self) -> (r: bool)
        ensures
            r == (id_layer(*self) == Layer::Middleground),
    {
        match self {
            RenderUnitId::Middleground(_) => true,
            _ => false,
        }
    }

    pub fn is_fg(&self) -> (r: bool)
        ensures
            r == (id_layer(*self) == Layer::Foreground),
    {
        match self {
            RenderUnitId::Foreground(_) => true,
            _ => false,
        }
    }

    pub fn is_ui(&self) -> (r: bool)
        ensures
            r == (id_layer(*self) == Layer::Ui),
    {
        match self {
            RenderUnitId::Ui(_) => true,
            _ => false,
        }
    }

    /// The id held now. Another thread may store a new one at any time, so
    /// nothing is stated of the value.
    pub fn load(&self) -> usize {
        match self {
            Self::Background(val) => val.load(Ordering::SeqCst),
            Self::Middleground(val) => val.load(Ordering::SeqCst),
            Self::Foreground(val) => val.load(Ordering::SeqCst),
            Self::Ui(val) => val.load(Ordering::SeqCst),
        }
    }

    /// Makes the handle hold id `val`.
    pub fn store(&self, val: usize) {
        match self {
            Self::Background(aval) => aval.store(val, Ordering::SeqCst),
            Self::Middleground(aval) => aval.store(val, Ordering::SeqCst),
            Self::Foreground(aval) => aval.store(val, Ordering::SeqCst),
            Self::Ui(aval) => aval.store(val, Ordering::SeqCst),
        }
    }
}

/// A handle's layer is the one its variant names.
pub proof fn law_handle_layers(a: AtomicUsize)
    ensures
        id_layer(RenderUnitId::Background(a)) == Layer::Background,
        id_layer(RenderUnitId::Middleground(a)) == Layer::Middleground,
        id_layer(RenderUnitId::Foreground(a)) == Layer::Foreground,
        id_layer(RenderUnitId::Ui(a)) == Layer::Ui,
{
}

} // verus!
