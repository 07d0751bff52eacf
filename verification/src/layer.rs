//! Layers: windows at positions, stacked from the bottom up.

use std::collections::BTreeMap;
use std::sync::Arc;
use vstd::prelude::*;
use crate::graphics::{Graphics, Screen, Vector2D};
use crate::window::{overlay, Pixels, Window};

verus! {

broadcast use {vstd::std_specs::btree::group_btree_axioms, vstd::laws_cmp::group_laws_cmp};

/// Name of a layer.
#[derive(Debug, Clone, Copy, PartialEq, Eq, PartialOrd, Ord, Structural)]
pub struct LayerId(usize);

impl LayerId {
    /// The number that the name stands for.
    pub closed spec fn value(self) -> usize {
        self.0
    }

    /// The layer name for a number.
    pub fn new(id: usize) -> (layer_id: LayerId)
        ensures
            layer_id.value() == id,
    {
        LayerId(id)
    }

    /// The number that the name stands for.
    pub fn get(&self) -> (id: usize)
        ensures
            id == self.value(),
    {
        self.0
    }
}

/// A window, if any, and the position of its top left corner on the
/// screen.
#[derive(Debug)]
pub struct Layer {
    id: LayerId,
    pos: Vector2D<isize>,
    window: Option<Arc<Window>>,
}

/// The screen with a layer drawn onto it.
pub open spec fn draw_layer(screen: Screen, layer: Layer) -> Screen {
    match layer.pixels() {
        Some(pixels) => overlay(screen, pixels, layer.x(), layer.y()),
        None => screen,
    }
}

impl Layer {
    /// The layer's name.
    pub closed spec fn layer_id(&self) -> LayerId {
        self.id
    }

    /// Column of the layer's top left corner.
    pub closed spec fn x(&self) -> int {
        self.pos.x as int
    }

    /// Row of the layer's top left corner.
    pub closed spec fn y(&self) -> int {
        self.pos.y as int
    }

    /// The pixels of the layer's window, if it has one.
    pub closed spec fn pixels(&self) -> Option<Pixels> {
        match self.window {
            Some(window) => Some(window@),
            None => None,
        }
    }

    /// A layer without a window, at the top left corner of the screen.
    pub fn new(id: LayerId) -> (layer: Layer)
        ensures
            layer.layer_id() == id,
            layer.x() == 0,
            layer.y() == 0,
            layer.pixels() is None,
    {
        Layer { id, pos: Vector2D::<isize> { x: 0, y: 0 }, window: None }
    }

    /// The layer's name.
    pub fn id(&self) -> (id: LayerId)
        ensures
            id == self.layer_id(),
    {
        self.id
    }

    /// Gives the layer a window, in place of the one it may have.
    pub fn set_window(&mut self, window: Arc<Window>)
        ensures
            final(self).layer_id() == old(self).layer_id(),
            final(self).x() == old(self).x(),
            final(self).y() == old(self).y(),
            final(self).pixels() == Some(window@),
    {
        self.window = Some(window);
    }

    /// The layer's window, if it has one.
    pub fn window(&self) -> (window: Option<&Arc<Window>>)
        ensures
            match window {
                Some(w) => self.pixels() == Some(w@),
                None => self.pixels() is None,
            },
    {
        self.window.as_ref()
    }

    /// Moves the layer's top left corner to `pos`.
    pub fn move_to(&mut self, pos: &Vector2D<isize>)
        ensures
            final(self).layer_id() == old(self).layer_id(),
            final(self).pixels() == old(self).pixels(),
            final(self).x() == pos.x,
            final(self).y() == pos.y,
    {
        self.pos = *pos
    }

    /// The position `diff` away from the layer's position can be
    /// represented.
    pub open spec fn can_move_by(&self, dx: int, dy: int) -> bool {
        &&& isize::MIN <= self.x() + dx <= isize::MAX
        &&& isize::MIN <= self.y() + dy <= isize::MAX
    }

    /// Moves the layer by `pos`.
    pub fn move_relative(&mut self, pos: &Vector2D<isize>)
        requires
            old(self).can_move_by(pos.x as int, pos.y as int),
        ensures
            final(self).layer_id() == old(self).layer_id(),
            final(self).pixels() == old(self).pixels(),
            final(self).x() == old(self).x() + pos.x,
            final(self).y() == old(self).y() + pos.y,
    {
        self.pos = Vector2D::<isize> { x: self.pos.x + pos.x, y: self.pos.y + pos.y };
    }

    /// Draws the layer's window, if it has one, at the layer's position.
    pub fn draw(&self, graphics: &mut Graphics)
        ensures
            final(graphics)@ == draw_layer(old(graphics)@, *self),
            final(graphics).width() == old(graphics).width(),
            final(graphics).height() == old(graphics).height(),
            final(graphics).font() == old(graphics).font(),
    {
        match &self.window {
            Some(window) => {
                window.draw_to(graphics, &self.pos);
            },
            None => {},
        }
    }
}

/// The stack without the layer `id`.
pub open spec fn without(stack: Seq<LayerId>, id: LayerId) -> Seq<LayerId>
    decreases stack.len(),
{
    if stack.len() == 0 {
        stack
    } else if stack.last() == id {
        without(stack.drop_last(), id)
    } else {
        without(stack.drop_last(), id).push(stack.last())
    }
}

/// The stack with the layer `id` moved to height `pos`, or to the top if
/// the stack is lower than that.
pub open spec fn positioned(stack: Seq<LayerId>, id: LayerId, pos: int) -> Seq<LayerId> {
    let rest = without(stack, id);
    rest.insert(if pos <= rest.len() { pos } else { rest.len() as int }, id)
}

/// The screen with the layers of the stack drawn onto it from the bottom
/// up. A name on the stack that no registered layer has is passed over.
pub open spec fn draw_stack(screen: Screen, layers: Map<usize, Layer>, stack: Seq<LayerId>) -> Screen
    decreases stack.len(),
{
    if stack.len() == 0 {
        screen
    } else {
        let below = draw_stack(screen, layers, stack.drop_last());
        if layers.contains_key(stack.last().value()) {
            draw_layer(below, layers[stack.last().value()])
        } else {
            below
        }
    }
}

/// The registered layers, the order in which they are drawn, and the
/// screen they are drawn on.
pub struct LayerManager {
    layers: BTreeMap<usize, Layer>,
    layer_stack: Vec<LayerId>,
    graphics: Graphics,
}

impl LayerManager {
    /// The registered layers by the number of their name.
    pub closed spec fn layers(&self) -> Map<usize, Layer> {
        self.layers@
    }

    /// The names of the layers that are drawn, from the bottom up.
    pub closed spec fn stack(&self) -> Seq<LayerId> {
        self.layer_stack@
    }

    /// The screen.
    pub closed spec fn screen(&self) -> Screen {
        self.graphics@
    }

    /// A manager without layers that draws with `graphics`.
    pub fn new(graphics: Graphics) -> (manager: LayerManager)
        ensures
            manager.layers() == Map::<usize, Layer>::empty(),
            manager.stack() == Seq::<LayerId>::empty(),
            manager.screen() == graphics@,
    {
        LayerManager { layers: BTreeMap::new(), layer_stack: Vec::new(), graphics }
    }

    /// What is drawn with.
    pub fn graphics(&self) -> (graphics: &Graphics)
        ensures
            graphics@ == self.screen(),
    {
        &self.graphics
    }

    /// Registers a layer under its name, in place of the layer that may be
    /// registered under it. The layer is not drawn before it has a
    /// position on the stack.
    pub fn register(&mut self, layer: Layer)
        ensures
            final(self).layers() == old(self).layers().insert(layer.layer_id().value(), layer),
            final(self).stack() == old(self).stack(),
            final(self).screen() == old(self).screen(),
    {
        let id = layer.id();
        self.layers.insert(id.get(), layer);
    }

    /// Moves a registered layer to height `pos` of the stack, or to the top
    /// if the stack is lower. For a name that is not registered nothing
    /// changes.
    pub fn set_position(&mut self, id: LayerId, pos: usize)
        ensures
            final(self).layers() == old(self).layers(),
            final(self).screen() == old(self).screen(),
            final(self).stack() == (if old(self).layers().contains_key(id.value()) {
                positioned(old(self).stack(), id, pos as int)
            } else {
                old(self).stack()
            }),
    {
        if !self.layers.contains_key(&id.get()) {
            return ;
        }
        let mut rest: Vec<LayerId> = Vec::new();
        let mut i: usize = 0;
        assert(self.layer_stack@.subrange(0, 0) =~= Seq::<LayerId>::empty());
        while i < self.layer_stack.len()
            invariant
                i <= self.layer_stack@.len(),
                self.layer_stack == old(self).layer_stack,
                rest@ == without(self.layer_stack@.subrange(0, i as int), id),
            decreases self.layer_stack@.len() - i,
        {
            let elem = self.layer_stack[i];
            proof {
                assert(self.layer_stack@.subrange(0, i + 1).drop_last() =~= self.layer_stack@.subrange(
                    0,
                    i as int,
                ));
            }
            if elem.get() != id.get() {
                rest.push(elem);
            }
            i = i + 1;
        }
        assert(self.layer_stack@.subrange(0, self.layer_stack@.len() as int) =~= self.layer_stack@);
        let new_pos = if pos <= rest.len() {
            pos
        } else {
            rest.len()
        };
        rest.insert(new_pos, id);
        self.layer_stack = rest;
    }

    /// Draws the layers of the stack from the bottom up.
    pub fn draw(&mut self)
        ensures
            final(self).layers() == old(self).layers(),
            final(self).stack() == old(self).stack(),
            final(self).screen() == draw_stack(
                old(self).screen(),
                old(self).layers(),
                old(self).stack(),
            ),
    {
        let mut i: usize = 0;
        assert(self.layer_stack@.subrange(0, 0) =~= Seq::<LayerId>::empty());
        while i < self.layer_stack.len()
            invariant
                i <= self.layer_stack@.len(),
                self.layer_stack == old(self).layer_stack,
                self.layers == old(self).layers,
                self.graphics@ == draw_stack(
                    old(self).graphics@,
                    self.layers@,
                    self.layer_stack@.subrange(0, i as int),
                ),
            decreases self.layer_stack@.len() - i,
        {
            let id = self.layer_stack[i];
            proof {
                assert(self.layer_stack@.subrange(0, i + 1).drop_last() =~= self.layer_stack@.subrange(
                    0,
                    i as int,
                ));
            }
            let key = id.get();
            match self.layers.get(&key) {
                Some(layer) => {
                    layer.draw(&mut self.graphics);
                },
                None => {},
            }
            i = i + 1;
        }
        assert(self.layer_stack@.subrange(0, self.layer_stack@.len() as int) =~= self.layer_stack@);
    }

    /// Moves a registered layer by `diff`. For a name that is not registered
    /// nothing changes.
    pub fn move_relative(&mut self, id: LayerId, diff: &Vector2D<isize>)
        requires
            old(self).layers().contains_key(id.value()) ==> old(self).layers()[id.value()].can_move_by(
                diff.x as int,
                diff.y as int,
            ),
        ensures
            final(self).stack() == old(self).stack(),
            final(self).screen() == old(self).screen(),
            final(self).layers().dom() == old(self).layers().dom(),
            forall|k: usize|
                k != id.value() && old(self).layers().contains_key(k) ==> final(self).layers()[k]
                    == old(self).layers()[k],
            old(self).layers().contains_key(id.value()) ==> {
                let before = old(self).layers()[id.value()];
                let after = final(self).layers()[id.value()];
                &&& after.layer_id() == before.layer_id()
                &&& after.pixels() == before.pixels()
                &&& after.x() == before.x() + diff.x
                &&& after.y() == before.y() + diff.y
            },
    {
        let key = id.get();
        match self.layers.remove(&key) {
            Some(layer) => {
                let mut layer = layer;
                layer.move_relative(diff);
                self.layers.insert(key, layer);
                assert(self.layers@.dom() =~= old(self).layers@.dom());
            },
            None => {
                assert(self.layers@ =~= old(self).layers@);
            },
        }
    }
}

} // verus!
