//! UI containers, elements, and the per-frame event/UI dispatch engine.
//!
//! Each scene object may own at most one UI container; a container owns a
//! handle store of elements, each with a screen box, a drawable model, and a
//! click reaction.  The dispatch engine consumes one input packet per frame,
//! hit-tests elements, applies the resulting state changes, routes messages
//! to owning objects, lets objects replace or drop their containers, and
//! returns the minimal geometry diff for the backend to rebuild.
use crate::camera::Camera;
use crate::geometry::BoundingBox;
use crate::geometry::Point2;
use crate::geometry::Triangle;
use crate::graphics_engine::RuntimeModel;
use crate::handle::Handle;
use crate::handle::Slot;
use crate::handle::Store;
use crate::game::objects_wf;
use crate::game::GameObject;
use crate::game::SceneObject;
use crate::Event;
use crate::Model;
use crate::ModelView;
use vstd::prelude::*;

verus! {

/// A routed payload; identity is attached externally by the handle it is
/// addressed to.
#[derive(Clone, Copy, PartialEq, Eq, Structural, Debug)]
pub enum Message {
    /// The owning object's collider (or one of its UI elements) was clicked.
    ClickedOn,
}

/// What an element asks for after processing an event.
#[derive(Clone, Copy, PartialEq, Eq, Structural, Debug)]
pub enum StateChange {
    NoChange,
    NeedsRebuild,
    DeleteContainer,
}

/// One UI element: a screen box with a drawable model and a click reaction.
pub struct UiElement {
    /// Screen-space bounds; the element's collider is the box's triangle
    /// pair.
    pub bounds: BoundingBox,
    /// The geometry the backend builds for this element.
    pub model: Model,
    /// State change requested when the element is clicked.
    pub on_click: StateChange,
    /// Messages sent to the owning object when the element is clicked.
    pub click_messages: Vec<Message>,
}

/// A container slot: the element plus its optional backend-built resource.
pub struct UiEntry {
    pub element: UiElement,
    pub runtime: Option<RuntimeModel>,
}

/// A UI sub-tree owned by exactly one scene object.
pub struct GuiContainer {
    pub elements: Store<UiEntry>,
    /// Handle of the owning scene object in the world store.
    pub parent_index: Handle,
}

/// What a scene object reports when asked for its UI.
pub enum GetGuiOutput {
    /// Publish this container, replacing any existing one.
    Container(GuiContainer),
    /// Keep the existing container (or keep having none).
    NoChange,
    /// No UI: remove an existing container.
    NoGui,
}

/// One frame's input: the cursor position and the ordered events.
pub struct EventPacket {
    pub mouse_position: Point2,
    pub events: Vec<Event>,
}

/// An object that may own a UI container.
pub trait GuiParent: Sized {
    /// The object's internal validity.
    spec fn gui_parent_wf(self) -> bool;

    /// Reports the object's UI for this frame; `&mut` so the object can
    /// note that a pending container has been published.
    fn get_gui(&mut self) -> (g: GetGuiOutput)
        requires
            old(self).gui_parent_wf(),
        ensures
            final(self).gui_parent_wf(),
    ;

    /// Receives a routed message.
    fn process_message(&mut self, message: &Message)
        requires
            old(self).gui_parent_wf(),
        ensures
            final(self).gui_parent_wf(),
    ;

    /// The object's screen-space hit-test collider under `camera`.
    fn get_screen_collider(&self, camera: &Camera) -> Vec<Triangle>
        requires
            self.gui_parent_wf(),
            camera.wf(),
    ;
}

/// What [`UiElement::process_event`] returns: clicks trigger the element's
/// configured reaction, every other event leaves it untouched.
pub open spec fn spec_process_event(e: UiElement, ev: Event) -> (StateChange, Seq<Message>) {
    if ev is MouseClick {
        (e.on_click, e.click_messages@)
    } else {
        (StateChange::NoChange, Seq::<Message>::empty())
    }
}

impl UiElement {
    /// What hit testing this element's collider reports for `p`.
    pub open spec fn hit(self, p: Point2) -> bool {
        self.bounds.collider_hit(p)
    }

    pub fn new(bounds: BoundingBox, model: Model, on_click: StateChange, click_messages: Vec<
        Message>) -> (e: UiElement)
        ensures
            e.bounds == bounds,
            e.model == model,
            e.on_click == on_click,
            e.click_messages == click_messages,
    {
        UiElement { bounds, model, on_click, click_messages }
    }

    /// The element's collider: its box's triangle pair.
    pub fn get_screen_collider(&self) -> (ts: Vec<Triangle>)
        ensures
            ts@.len() == 2,
            ts@[0] == self.bounds.tri_lo(),
            ts@[1] == self.bounds.tri_hi(),
    {
        self.bounds.collider()
    }

    /// Hit test against the element's collider.
    pub fn hit_test(&self, p: &Point2) -> (r: bool)
        ensures
            r == self.hit(*p),
    {
        let ts = self.get_screen_collider();
        let first = ts[0].intersects(p);
        let second = ts[1].intersects(p);
        first || second
    }

    /// Processes one event: a click triggers the configured reaction.
    pub fn process_event(&self, event: &Event) -> (r: (StateChange, Vec<Message>))
        ensures
            r.0 == spec_process_event(*self, *event).0,
            r.1@ == spec_process_event(*self, *event).1,
    {
        match event {
            Event::MouseClick(_) => {
                let mut msgs: Vec<Message> = Vec::new();
                let mut i: usize = 0;
                let n = self.click_messages.len();
                while i < n
                    invariant
                        i <= n,
                        n == self.click_messages@.len(),
                        msgs@ == self.click_messages@.take(i as int),
                    decreases n - i,
                {
                    msgs.push(self.click_messages[i]);
                    proof {
                        assert(msgs@ =~= self.click_messages@.take(i + 1));
                    }
                    i = i + 1;
                }
                proof {
                    assert(msgs@ =~= self.click_messages@);
                }
                (self.on_click, msgs)
            }
            _ => (StateChange::NoChange, Vec::new()),
        }
    }
}

impl GuiContainer {
    /// Every element slot obeys the store's well-formedness.
    pub open spec fn wf(self) -> bool {
        self.elements.wf()
    }

    /// A cursor position hits the container when it hits any of its
    /// elements; the container's collider is the union of its elements'.
    pub open spec fn hit(self, p: Point2) -> bool {
        exists|i: int|
            0 <= i < self.elements.slots@.len() && ((#[trigger] self.elements.slots@[i]) matches
                Slot::Full { value, .. } && value.element.hit(p))
    }

    /// A fresh container holding the given elements, in order.  The owner
    /// handle is stamped by the dispatch engine when the container is
    /// published.
    pub fn new(elements: Vec<UiElement>) -> (c: GuiContainer)
        ensures
            c.wf(),
            c.elements.slots@.len() == elements@.len(),
            forall|i: int| 0 <= i < elements@.len() ==> ((#[trigger] c.elements.slots@[i]) matches
                Slot::Full { generation, value } && generation == 0 && value.element == elements@[i]
                && value.runtime is None),
            c.parent_index == (Handle { index: 0, generation: 0 }),
    {
        let mut store: Store<UiEntry> = Store::new();
        let mut elements = elements;
        let ghost input = elements@;
        let mut i: usize = 0;
        let total = elements.len();
        while i < total
            invariant
                i <= total,
                total == input.len(),
                elements@ == input.skip(i as int),
                store.wf(),
                store.generation == 0,
                store.slots@.len() == i,
                forall|j: int| 0 <= j < i ==> ((#[trigger] store.slots@[j]) matches Slot::Full {
                    generation, value } && generation == 0 && value.element == input[j]
                    && value.runtime is None),
            decreases total - i,
        {
            let e = elements.remove(0);
            proof {
                assert(e == input[i as int]);
                assert(elements@ =~= input.skip(i + 1));
            }
            let h = store.insert(UiEntry { element: e, runtime: None });
            proof {
                assert(h.index == i);
            }
            i = i + 1;
        }
        GuiContainer { elements: store, parent_index: Handle { index: 0, generation: 0 } }
    }

    /// Hit test against every element's collider.
    pub fn hit_test(&self, p: &Point2) -> (r: bool)
        ensures
            r == self.hit(*p),
    {
        let n = self.elements.slot_count();
        let mut i: usize = 0;
        let mut found = false;
        while i < n
            invariant
                i <= n,
                n == self.elements.slots@.len(),
                found == exists|j: int|
                    0 <= j < i && ((#[trigger] self.elements.slots@[j]) matches Slot::Full {
                        value, .. } && value.element.hit(*p)),
            decreases n - i,
        {
            match &self.elements.slots[i] {
                Slot::Full { value, .. } => {
                    if value.element.hit_test(p) {
                        found = true;
                    }
                }
                Slot::Vacant => {}
            }
            i = i + 1;
        }
        found
    }
}


// ---------------------------------------------------------------------------
// The spec model of one dispatch frame, phase by phase.  Each recursion walks
// from index `i` to the end, so loop invariants can state "what is done so
// far plus what this function still yields equals the whole".
// ---------------------------------------------------------------------------

/// Phase one, innermost: the `(state change, container key, element handle)`
/// tuples the hit elements of one container yield for one event, from
/// element slot `i` on.
pub open spec fn elem_changes(
    slots: Seq<Slot<UiEntry>>,
    owner: Handle,
    ev: Event,
    cursor: Point2,
    i: int,
) -> Seq<(StateChange, Handle, Handle)>
    decreases slots.len() - i,
{
    if i < 0 || i >= slots.len() {
        Seq::empty()
    } else {
        let rest = elem_changes(slots, owner, ev, cursor, i + 1);
        match slots[i] {
            Slot::Full { generation, value } => if value.element.hit(cursor) {
                seq![
                    (
                        spec_process_event(value.element, ev).0,
                        owner,
                        Handle { index: i as usize, generation },
                    ),
                ] + rest
            } else {
                rest
            },
            Slot::Vacant => rest,
        }
    }
}

/// Phase one, innermost: the messages those same elements emit, stamped with
/// the container's owner.
pub open spec fn elem_msgs(
    slots: Seq<Slot<UiEntry>>,
    owner: Handle,
    ev: Event,
    cursor: Point2,
    i: int,
) -> Seq<(Handle, Message)>
    decreases slots.len() - i,
{
    if i < 0 || i >= slots.len() {
        Seq::empty()
    } else {
        let rest = elem_msgs(slots, owner, ev, cursor, i + 1);
        match slots[i] {
            Slot::Full { generation, value } => if value.element.hit(cursor) {
                spec_process_event(value.element, ev).1.map(|k: int, m: Message| (owner, m)) + rest
            } else {
                rest
            },
            Slot::Vacant => rest,
        }
    }
}

/// Phase one, per event: fan the event out over every container the cursor
/// hits, in container order.
pub open spec fn event_changes(cs: Seq<GuiContainer>, ev: Event, cursor: Point2, ci: int) -> Seq<
    (StateChange, Handle, Handle),
>
    decreases cs.len() - ci,
{
    if ci < 0 || ci >= cs.len() {
        Seq::empty()
    } else {
        (if cs[ci].hit(cursor) {
            elem_changes(cs[ci].elements.slots@, cs[ci].parent_index, ev, cursor, 0)
        } else {
            Seq::empty()
        }) + event_changes(cs, ev, cursor, ci + 1)
    }
}

/// Phase one, per event: the stamped messages, in the same order.
pub open spec fn event_msgs(cs: Seq<GuiContainer>, ev: Event, cursor: Point2, ci: int) -> Seq<
    (Handle, Message),
>
    decreases cs.len() - ci,
{
    if ci < 0 || ci >= cs.len() {
        Seq::empty()
    } else {
        (if cs[ci].hit(cursor) {
            elem_msgs(cs[ci].elements.slots@, cs[ci].parent_index, ev, cursor, 0)
        } else {
            Seq::empty()
        }) + event_msgs(cs, ev, cursor, ci + 1)
    }
}

/// Phase one: all events of the packet, in order.
pub open spec fn all_changes(
    cs: Seq<GuiContainer>,
    events: Seq<Event>,
    cursor: Point2,
    ei: int,
) -> Seq<(StateChange, Handle, Handle)>
    decreases events.len() - ei,
{
    if ei < 0 || ei >= events.len() {
        Seq::empty()
    } else {
        event_changes(cs, events[ei], cursor, 0) + all_changes(cs, events, cursor, ei + 1)
    }
}

/// Phase one: all stamped element messages of the packet, in order.
pub open spec fn all_elem_msgs(
    cs: Seq<GuiContainer>,
    events: Seq<Event>,
    cursor: Point2,
    ei: int,
) -> Seq<(Handle, Message)>
    decreases events.len() - ei,
{
    if ei < 0 || ei >= events.len() {
        Seq::empty()
    } else {
        event_msgs(cs, events[ei], cursor, 0) + all_elem_msgs(cs, events, cursor, ei + 1)
    }
}

/// The first container owned by `owner` at or after `i`, or the container
/// count when there is none.
pub open spec fn find_owner(cs: Seq<GuiContainer>, owner: Handle, i: int) -> int
    decreases cs.len() - i,
{
    if i < 0 || i >= cs.len() {
        cs.len() as int
    } else if cs[i].parent_index == owner {
        i
    } else {
        find_owner(cs, owner, i + 1)
    }
}

/// Appends `h` unless it is already marked.
pub open spec fn push_unique(s: Seq<Handle>, h: Handle) -> Seq<Handle> {
    if s.contains(h) {
        s
    } else {
        s.push(h)
    }
}

/// Phase two, one tuple: `NeedsRebuild` marks a still-existing container
/// dirty; `DeleteContainer` removes the container and marks it dirty; a
/// tuple whose container or element is already gone is a no-op.
pub open spec fn apply_change(
    cs: Seq<GuiContainer>,
    dirty: Seq<Handle>,
    change: (StateChange, Handle, Handle),
) -> (Seq<GuiContainer>, Seq<Handle>) {
    let owner = change.1;
    let idx = find_owner(cs, owner, 0);
    match change.0 {
        StateChange::NoChange => (cs, dirty),
        StateChange::NeedsRebuild => if idx < cs.len() && cs[idx].elements.live(change.2) {
            (cs, push_unique(dirty, owner))
        } else {
            (cs, dirty)
        },
        StateChange::DeleteContainer => if idx < cs.len() {
            (cs.remove(idx), push_unique(dirty, owner))
        } else {
            (cs, dirty)
        },
    }
}

/// Phase two: all tuples, in order.
pub open spec fn apply_changes(
    cs: Seq<GuiContainer>,
    dirty: Seq<Handle>,
    changes: Seq<(StateChange, Handle, Handle)>,
    k: int,
) -> (Seq<GuiContainer>, Seq<Handle>)
    decreases changes.len() - k,
{
    if k < 0 || k >= changes.len() {
        (cs, dirty)
    } else {
        let st = apply_change(cs, dirty, changes[k]);
        apply_changes(st.0, st.1, changes, k + 1)
    }
}

/// Phase three, per object: one `ClickedOn` per object whose screen collider
/// contains the cursor, in slot order.
pub open spec fn click_msgs_at(
    objs: Seq<Slot<SceneObject>>,
    cam: Camera,
    cursor: Point2,
    i: int,
) -> Seq<(Handle, Message)>
    decreases objs.len() - i,
{
    if i < 0 || i >= objs.len() {
        Seq::empty()
    } else {
        let rest = click_msgs_at(objs, cam, cursor, i + 1);
        match objs[i] {
            Slot::Full { generation, value } => if value.hit(cam, cursor) {
                seq![(Handle { index: i as usize, generation }, Message::ClickedOn)] + rest
            } else {
                rest
            },
            Slot::Vacant => rest,
        }
    }
}

/// Phase three: scene-level hit testing happens once per click event.
pub open spec fn scene_click_msgs(
    objs: Seq<Slot<SceneObject>>,
    cam: Camera,
    cursor: Point2,
    events: Seq<Event>,
    ei: int,
) -> Seq<(Handle, Message)>
    decreases events.len() - ei,
{
    if ei < 0 || ei >= events.len() {
        Seq::empty()
    } else {
        (if events[ei] is MouseClick {
            click_msgs_at(objs, cam, cursor, 0)
        } else {
            Seq::empty()
        }) + scene_click_msgs(objs, cam, cursor, events, ei + 1)
    }
}

/// The messages addressed to `h`, oldest first.
pub open spec fn messages_for(h: Handle, msgs: Seq<(Handle, Message)>) -> Seq<Message>
    decreases msgs.len(),
{
    if msgs.len() == 0 {
        Seq::empty()
    } else {
        let rest = messages_for(h, msgs.drop_last());
        if msgs.last().0 == h {
            rest.push(msgs.last().1)
        } else {
            rest
        }
    }
}

/// Every message a frame routes: element messages first, scene clicks after.
pub open spec fn spec_frame_messages(
    cs: Seq<GuiContainer>,
    objs: Seq<Slot<SceneObject>>,
    cam: Camera,
    cursor: Point2,
    events: Seq<Event>,
) -> Seq<(Handle, Message)> {
    all_elem_msgs(cs, events, cursor, 0) + scene_click_msgs(objs, cam, cursor, events, 0)
}

/// Phase four, slot-wise: delivery appends each object's addressed messages
/// to its log (objects that keep no log drop them) and changes nothing else.
pub open spec fn delivery_slot_ok(
    pre: Slot<SceneObject>,
    post: Slot<SceneObject>,
    i: int,
    msgs: Seq<(Handle, Message)>,
) -> bool {
    match (pre, post) {
        (Slot::Vacant, Slot::Vacant) => true,
        (Slot::Full { generation: g1, value: v1 }, Slot::Full { generation: g2, value: v2 }) => {
            &&& g2 == g1
            &&& v2.same_core(v1)
            &&& v2.pending_of() == v1.pending_of()
            &&& v2.has_ui_of() == v1.has_ui_of()
            &&& v1.logs_messages() ==> v2.received_of() == v1.received_of() + messages_for(
                Handle { index: i as usize, generation: g1 },
                msgs,
            )
            &&& !v1.logs_messages() ==> v2.received_of() == v1.received_of()
        },
        _ => false,
    }
}

/// Phase five, one object: a published container is stamped with its owner's
/// handle and replaces (or joins) the store, marked dirty; `NoGui` removes an
/// existing container, marked dirty; `NoChange` touches nothing.
pub open spec fn apply_emission(
    cs: Seq<GuiContainer>,
    dirty: Seq<Handle>,
    h: Handle,
    out: GetGuiOutput,
) -> (Seq<GuiContainer>, Seq<Handle>) {
    let idx = find_owner(cs, h, 0);
    match out {
        GetGuiOutput::Container(c) => {
            let stamped = GuiContainer { elements: c.elements, parent_index: h };
            if idx < cs.len() {
                (cs.update(idx, stamped), push_unique(dirty, h))
            } else {
                (cs.push(stamped), push_unique(dirty, h))
            }
        },
        GetGuiOutput::NoChange => (cs, dirty),
        GetGuiOutput::NoGui => if idx < cs.len() {
            (cs.remove(idx), push_unique(dirty, h))
        } else {
            (cs, dirty)
        },
    }
}

/// Phase five: every live object is asked, in slot order.
pub open spec fn apply_emissions(
    cs: Seq<GuiContainer>,
    objs: Seq<Slot<SceneObject>>,
    dirty: Seq<Handle>,
    i: int,
) -> (Seq<GuiContainer>, Seq<Handle>)
    decreases objs.len() - i,
{
    if i < 0 || i >= objs.len() {
        (cs, dirty)
    } else {
        match objs[i] {
            Slot::Full { generation, value } => {
                let st = apply_emission(
                    cs,
                    dirty,
                    Handle { index: i as usize, generation },
                    value.emit_output(),
                );
                apply_emissions(st.0, objs, st.1, i + 1)
            },
            Slot::Vacant => apply_emissions(cs, objs, dirty, i + 1),
        }
    }
}

/// Phase five, slot-wise: emission clears pending containers and records
/// publication; nothing else changes.
pub open spec fn emission_slot_ok(pre: Slot<SceneObject>, post: Slot<SceneObject>) -> bool {
    match (pre, post) {
        (Slot::Vacant, Slot::Vacant) => true,
        (Slot::Full { generation: g1, value: v1 }, Slot::Full { generation: g2, value: v2 }) => {
            &&& g2 == g1
            &&& v2.same_core(v1)
            &&& v2.received_of() == v1.received_of()
            &&& v2.pending_of() is None
            &&& v2.has_ui_of() == (v1.has_ui_of() || v1.pending_of() is Some)
        },
        _ => false,
    }
}

/// What one whole frame does to an object's slot.
pub open spec fn frame_slot_ok(
    pre: Slot<SceneObject>,
    post: Slot<SceneObject>,
    i: int,
    msgs: Seq<(Handle, Message)>,
) -> bool {
    match (pre, post) {
        (Slot::Vacant, Slot::Vacant) => true,
        (Slot::Full { generation: g1, value: v1 }, Slot::Full { generation: g2, value: v2 }) => {
            &&& g2 == g1
            &&& v2.same_core(v1)
            &&& v1.logs_messages() ==> v2.received_of() == v1.received_of() + messages_for(
                Handle { index: i as usize, generation: g1 },
                msgs,
            )
            &&& !v1.logs_messages() ==> v2.received_of() == v1.received_of()
            &&& v2.pending_of() is None
            &&& v2.has_ui_of() == (v1.has_ui_of() || v1.pending_of() is Some)
        },
        _ => false,
    }
}

/// The container store and dirty set a frame ends with.
pub open spec fn spec_frame_containers_dirty(
    cs: Seq<GuiContainer>,
    objs: Seq<Slot<SceneObject>>,
    cursor: Point2,
    events: Seq<Event>,
) -> (Seq<GuiContainer>, Seq<Handle>) {
    let changes = all_changes(cs, events, cursor, 0);
    let st = apply_changes(cs, Seq::empty(), changes, 0);
    apply_emissions(st.0, objs, st.1, 0)
}

/// Phase six, per container: one diff entry per element, keyed by the
/// container's owner and the element's handle, in slot order.
pub open spec fn container_diff(c: GuiContainer, i: int) -> Seq<((Handle, Handle), ModelView)>
    decreases c.elements.slots@.len() - i,
{
    if i < 0 || i >= c.elements.slots@.len() {
        Seq::empty()
    } else {
        let rest = container_diff(c, i + 1);
        match c.elements.slots@[i] {
            Slot::Full { generation, value } => seq![
                ((c.parent_index, Handle { index: i as usize, generation }), value.element.model@),
            ] + rest,
            Slot::Vacant => rest,
        }
    }
}

/// Phase six: the geometry diff covers exactly the dirty containers that
/// still exist, in the order they were marked.
pub open spec fn build_diff(cs: Seq<GuiContainer>, dirty: Seq<Handle>, k: int) -> Seq<
    ((Handle, Handle), ModelView),
>
    decreases dirty.len() - k,
{
    if k < 0 || k >= dirty.len() {
        Seq::empty()
    } else {
        let idx = find_owner(cs, dirty[k], 0);
        (if idx < cs.len() {
            container_diff(cs[idx], 0)
        } else {
            Seq::empty()
        }) + build_diff(cs, dirty, k + 1)
    }
}

/// The content of a diff the engine hands out.
pub open spec fn diff_view(diff: Seq<((Handle, Handle), Model)>) -> Seq<
    ((Handle, Handle), ModelView),
> {
    diff.map_values(|p: ((Handle, Handle), Model)| (p.0, p.1@))
}

/// Phase seven, per container: the built resources of its elements, in slot
/// order.
pub open spec fn container_runtimes(c: GuiContainer, i: int) -> Seq<RuntimeModel>
    decreases c.elements.slots@.len() - i,
{
    if i < 0 || i >= c.elements.slots@.len() {
        Seq::empty()
    } else {
        let rest = container_runtimes(c, i + 1);
        match c.elements.slots@[i] {
            Slot::Full { value, .. } => match value.runtime {
                Some(r) => seq![r] + rest,
                None => rest,
            },
            Slot::Vacant => rest,
        }
    }
}

/// Phase seven: every buildable UI resource, container by container.
pub open spec fn all_runtimes(cs: Seq<GuiContainer>, ci: int) -> Seq<RuntimeModel>
    decreases cs.len() - ci,
{
    if ci < 0 || ci >= cs.len() {
        Seq::empty()
    } else {
        container_runtimes(cs[ci], 0) + all_runtimes(cs, ci + 1)
    }
}

/// What one element's resource slot holds after a submission batch: the last
/// entry addressed to it wins; entries for gone containers or elements fall
/// away.
pub open spec fn runtime_after_submit(
    cs: Seq<GuiContainer>,
    entries: Seq<((Handle, Handle), RuntimeModel)>,
    ci: int,
    ei: int,
    fallback: Option<RuntimeModel>,
) -> Option<RuntimeModel>
    decreases entries.len(),
{
    if entries.len() == 0 {
        fallback
    } else {
        let e = entries.last();
        if find_owner(cs, e.0.0, 0) == ci && 0 <= ci < cs.len() && cs[ci].elements.live(e.0.1)
            && e.0.1.index == ei {
            Some(e.1)
        } else {
            runtime_after_submit(cs, entries.drop_last(), ci, ei, fallback)
        }
    }
}

/// Emission results depend only on each slot's fullness, stamp, and UI
/// answer, so delivering messages first does not change them.
pub proof fn lemma_apply_emissions_congruent(
    cs: Seq<GuiContainer>,
    a: Seq<Slot<SceneObject>>,
    b: Seq<Slot<SceneObject>>,
    dirty: Seq<Handle>,
    i: int,
)
    requires
        a.len() == b.len(),
        forall|j: int| 0 <= j < a.len() ==> ((a[j] is Vacant <==> b[j] is Vacant) && ((
        #[trigger] a[j]) matches Slot::Full { generation: g1, value: v1 } ==> (b[j] matches
            Slot::Full { generation: g2, value: v2 } && g1 == g2 && v1.emit_output()
            == v2.emit_output()))),
    ensures
        apply_emissions(cs, a, dirty, i) == apply_emissions(cs, b, dirty, i),
    decreases a.len() - i,
{
    if 0 <= i < a.len() {
        match a[i] {
            Slot::Full { generation, value } => {
                let st = apply_emission(
                    cs,
                    dirty,
                    Handle { index: i as usize, generation },
                    value.emit_output(),
                );
                lemma_apply_emissions_congruent(st.0, a, b, st.1, i + 1);
            },
            Slot::Vacant => {
                lemma_apply_emissions_congruent(cs, a, b, dirty, i + 1);
            },
        }
    }
}

/// The per-frame dispatch engine: the store of UI containers, keyed by the
/// owning object's handle.
pub struct GuiState {
    pub containers: Vec<GuiContainer>,
}

impl GuiState {
    /// Every container's element store is well-formed.
    pub open spec fn wf(self) -> bool {
        forall|i: int| 0 <= i < self.containers@.len() ==> (#[trigger] self.containers@[i]).wf()
    }

    pub fn new() -> (s: GuiState)
        ensures
            s.wf(),
            s.containers@.len() == 0,
    {
        GuiState { containers: Vec::new() }
    }

    /// Index of the container owned by `owner`, or the container count.
    fn find_container(&self, owner: Handle) -> (idx: usize)
        ensures
            idx as int == find_owner(self.containers@, owner, 0),
    {
        let n = self.containers.len();
        let mut i: usize = 0;
        while i < n
            invariant
                i <= n,
                n == self.containers@.len(),
                find_owner(self.containers@, owner, 0) == find_owner(
                    self.containers@,
                    owner,
                    i as int,
                ),
            decreases n - i,
        {
            if self.containers[i].parent_index.index == owner.index
                && self.containers[i].parent_index.generation == owner.generation {
                proof {
                    assert(self.containers@[i as int].parent_index == owner);
                }
                return i;
            }
            i = i + 1;
        }
        n
    }
}

impl GuiContainer {
    /// What this container's hit elements say about one event.
    fn collect_element_hits(&self, cursor: &Point2, event: &Event) -> (r: (
        Vec<(StateChange, Handle, Handle)>,
        Vec<(Handle, Message)>,
    ))
        ensures
            r.0@ == elem_changes(self.elements.slots@, self.parent_index, *event, *cursor, 0),
            r.1@ == elem_msgs(self.elements.slots@, self.parent_index, *event, *cursor, 0),
    {
        let owner = self.parent_index;
        let n = self.elements.slot_count();
        let mut changes: Vec<(StateChange, Handle, Handle)> = Vec::new();
        let mut msgs: Vec<(Handle, Message)> = Vec::new();
        let ghost slots = self.elements.slots@;
        let mut i: usize = 0;
        while i < n
            invariant
                i <= n,
                n == slots.len(),
                slots == self.elements.slots@,
                owner == self.parent_index,
                changes@ + elem_changes(slots, owner, *event, *cursor, i as int) == elem_changes(
                    slots,
                    owner,
                    *event,
                    *cursor,
                    0,
                ),
                msgs@ + elem_msgs(slots, owner, *event, *cursor, i as int) == elem_msgs(
                    slots,
                    owner,
                    *event,
                    *cursor,
                    0,
                ),
            decreases n - i,
        {
            let ghost changes_pre = changes@;
            let ghost msgs_pre = msgs@;
            match &self.elements.slots[i] {
                Slot::Full { generation, value } => {
                    if value.element.hit_test(cursor) {
                        let (sc, mlist) = value.element.process_event(event);
                        let eh = Handle { index: i, generation: *generation };
                        changes.push((sc, owner, eh));
                        proof {
                            let head = seq![(sc, owner, eh)];
                            assert(changes@ =~= changes_pre + head);
                            assert(elem_changes(slots, owner, *event, *cursor, i as int) == head
                                + elem_changes(slots, owner, *event, *cursor, i + 1));
                            assert((changes_pre + head) + elem_changes(
                                slots,
                                owner,
                                *event,
                                *cursor,
                                i + 1,
                            ) =~= changes_pre + (head + elem_changes(
                                slots,
                                owner,
                                *event,
                                *cursor,
                                i + 1,
                            )));
                        }
                        let ghost mapped = spec_process_event(value.element, *event).1.map(
                            |k: int, m: Message| (owner, m),
                        );
                        let mn = mlist.len();
                        let mut k: usize = 0;
                        while k < mn
                            invariant
                                k <= mn,
                                mn == mlist@.len(),
                                mlist@ == spec_process_event(value.element, *event).1,
                                mapped == spec_process_event(value.element, *event).1.map(
                                    |k2: int, m: Message| (owner, m),
                                ),
                                msgs@ == msgs_pre + mapped.take(k as int),
                            decreases mn - k,
                        {
                            msgs.push((owner, mlist[k]));
                            proof {
                                assert(mapped[k as int] == (owner, mlist@[k as int]));
                                assert(msgs@ =~= msgs_pre + mapped.take(k + 1));
                            }
                            k = k + 1;
                        }
                        proof {
                            assert(mapped.take(mn as int) =~= mapped);
                            assert(elem_msgs(slots, owner, *event, *cursor, i as int) == mapped
                                + elem_msgs(slots, owner, *event, *cursor, i + 1));
                            assert((msgs_pre + mapped) + elem_msgs(
                                slots,
                                owner,
                                *event,
                                *cursor,
                                i + 1,
                            ) =~= msgs_pre + (mapped + elem_msgs(
                                slots,
                                owner,
                                *event,
                                *cursor,
                                i + 1,
                            )));
                        }
                    } else {
                        proof {
                            assert(elem_changes(slots, owner, *event, *cursor, i as int)
                                == elem_changes(slots, owner, *event, *cursor, i + 1));
                            assert(elem_msgs(slots, owner, *event, *cursor, i as int) == elem_msgs(
                                slots,
                                owner,
                                *event,
                                *cursor,
                                i + 1,
                            ));
                        }
                    }
                }
                Slot::Vacant => {
                    proof {
                        assert(elem_changes(slots, owner, *event, *cursor, i as int)
                            == elem_changes(slots, owner, *event, *cursor, i + 1));
                        assert(elem_msgs(slots, owner, *event, *cursor, i as int) == elem_msgs(
                            slots,
                            owner,
                            *event,
                            *cursor,
                            i + 1,
                        ));
                    }
                }
            }
            i = i + 1;
        }
        (changes, msgs)
    }
}

impl GuiState {
    /// Phase one, per event: hit-tests every container and element against
    /// the cursor and collects the requested state changes and messages.
    fn process_mouse_gui(&self, cursor: &Point2, event: &Event) -> (r: (
        Vec<(StateChange, Handle, Handle)>,
        Vec<(Handle, Message)>,
    ))
        ensures
            r.0@ == event_changes(self.containers@, *event, *cursor, 0),
            r.1@ == event_msgs(self.containers@, *event, *cursor, 0),
    {
        let n = self.containers.len();
        let mut changes: Vec<(StateChange, Handle, Handle)> = Vec::new();
        let mut msgs: Vec<(Handle, Message)> = Vec::new();
        let ghost cs = self.containers@;
        let mut ci: usize = 0;
        while ci < n
            invariant
                ci <= n,
                n == cs.len(),
                cs == self.containers@,
                changes@ + event_changes(cs, *event, *cursor, ci as int) == event_changes(
                    cs,
                    *event,
                    *cursor,
                    0,
                ),
                msgs@ + event_msgs(cs, *event, *cursor, ci as int) == event_msgs(
                    cs,
                    *event,
                    *cursor,
                    0,
                ),
            decreases n - ci,
        {
            let ghost changes_pre = changes@;
            let ghost msgs_pre = msgs@;
            let c = &self.containers[ci];
            if c.hit_test(cursor) {
                let (mut cchanges, mut cmsgs) = c.collect_element_hits(cursor, event);
                let ghost here_changes = cchanges@;
                let ghost here_msgs = cmsgs@;
                changes.append(&mut cchanges);
                msgs.append(&mut cmsgs);
                proof {
                    assert(event_changes(cs, *event, *cursor, ci as int) == here_changes
                        + event_changes(cs, *event, *cursor, ci + 1));
                    assert(event_msgs(cs, *event, *cursor, ci as int) == here_msgs + event_msgs(
                        cs,
                        *event,
                        *cursor,
                        ci + 1,
                    ));
                    assert((changes_pre + here_changes) + event_changes(
                        cs,
                        *event,
                        *cursor,
                        ci + 1,
                    ) =~= changes_pre + (here_changes + event_changes(cs, *event, *cursor, ci + 1)));
                    assert((msgs_pre + here_msgs) + event_msgs(cs, *event, *cursor, ci + 1)
                        =~= msgs_pre + (here_msgs + event_msgs(cs, *event, *cursor, ci + 1)));
                }
            } else {
                proof {
                    assert(Seq::<(StateChange, Handle, Handle)>::empty() + event_changes(
                        cs,
                        *event,
                        *cursor,
                        ci + 1,
                    ) =~= event_changes(cs, *event, *cursor, ci + 1));
                    assert(Seq::<(Handle, Message)>::empty() + event_msgs(
                        cs,
                        *event,
                        *cursor,
                        ci + 1,
                    ) =~= event_msgs(cs, *event, *cursor, ci + 1));
                }
            }
            ci = ci + 1;
        }
        (changes, msgs)
    }

    /// Phase one: all events of the packet, in order.
    fn collect_hits(&self, cursor: &Point2, events: &Vec<Event>) -> (r: (
        Vec<(StateChange, Handle, Handle)>,
        Vec<(Handle, Message)>,
    ))
        ensures
            r.0@ == all_changes(self.containers@, events@, *cursor, 0),
            r.1@ == all_elem_msgs(self.containers@, events@, *cursor, 0),
    {
        let n = events.len();
        let mut changes: Vec<(StateChange, Handle, Handle)> = Vec::new();
        let mut msgs: Vec<(Handle, Message)> = Vec::new();
        let ghost cs = self.containers@;
        let mut ei: usize = 0;
        while ei < n
            invariant
                ei <= n,
                n == events@.len(),
                cs == self.containers@,
                changes@ + all_changes(cs, events@, *cursor, ei as int) == all_changes(
                    cs,
                    events@,
                    *cursor,
                    0,
                ),
                msgs@ + all_elem_msgs(cs, events@, *cursor, ei as int) == all_elem_msgs(
                    cs,
                    events@,
                    *cursor,
                    0,
                ),
            decreases n - ei,
        {
            let ghost changes_pre = changes@;
            let ghost msgs_pre = msgs@;
            let (mut echanges, mut emsgs) = self.process_mouse_gui(cursor, &events[ei]);
            let ghost here_changes = echanges@;
            let ghost here_msgs = emsgs@;
            changes.append(&mut echanges);
            msgs.append(&mut emsgs);
            proof {
                assert(all_changes(cs, events@, *cursor, ei as int) == here_changes + all_changes(
                    cs,
                    events@,
                    *cursor,
                    ei + 1,
                ));
                assert(all_elem_msgs(cs, events@, *cursor, ei as int) == here_msgs + all_elem_msgs(
                    cs,
                    events@,
                    *cursor,
                    ei + 1,
                ));
                assert((changes_pre + here_changes) + all_changes(cs, events@, *cursor, ei + 1)
                    =~= changes_pre + (here_changes + all_changes(cs, events@, *cursor, ei + 1)));
                assert((msgs_pre + here_msgs) + all_elem_msgs(cs, events@, *cursor, ei + 1)
                    =~= msgs_pre + (here_msgs + all_elem_msgs(cs, events@, *cursor, ei + 1)));
            }
            ei = ei + 1;
        }
        (changes, msgs)
    }
}

/// Appends `h` to the dirty set unless it is already marked.
fn push_unique_exec(dirty: &mut Vec<Handle>, h: Handle)
    ensures
        final(dirty)@ == push_unique(old(dirty)@, h),
{
    let n = dirty.len();
    let mut i: usize = 0;
    while i < n
        invariant
            i <= n,
            n == dirty@.len(),
            *dirty == *old(dirty),
            forall|j: int| 0 <= j < i ==> dirty@[j] != h,
        decreases n - i,
    {
        if dirty[i] == h {
            proof {
                assert(dirty@.contains(h));
            }
            return ;
        }
        i = i + 1;
    }
    proof {
        assert(!dirty@.contains(h)) by {
            if dirty@.contains(h) {
                let j = choose|j: int| 0 <= j < dirty@.len() && dirty@[j] == h;
                assert(dirty@[j] != h);
            }
        }
    }
    dirty.push(h);
}

/// Hit test of one object's screen collider against the cursor.
fn object_hit(o: &SceneObject, camera: &Camera, cursor: &Point2) -> (r: bool)
    requires
        o.wf(),
        camera.wf(),
    ensures
        r == o.hit(*camera, *cursor),
{
    let ts = o.get_screen_collider_g(camera);
    let n = ts.len();
    let mut i: usize = 0;
    let mut found = false;
    while i < n
        invariant
            i <= n,
            n == ts@.len(),
            ts@ == o.screen_collider(*camera),
            found == exists|j: int|
                0 <= j < i && crate::geometry::triangle_hit(#[trigger] ts@[j], *cursor),
        decreases n - i,
    {
        if ts[i].intersects(cursor) {
            found = true;
        }
        i = i + 1;
    }
    found
}

/// Phase three: scene-level hit testing, one `ClickedOn` per hit object per
/// click event.
fn scene_clicks(
    objects: &Store<SceneObject>,
    camera: &Camera,
    cursor: &Point2,
    events: &Vec<Event>,
) -> (msgs: Vec<(Handle, Message)>)
    requires
        objects_wf(*objects),
        camera.wf(),
    ensures
        msgs@ == scene_click_msgs(objects.slots@, *camera, *cursor, events@, 0),
{
    let n = events.len();
    let mut msgs: Vec<(Handle, Message)> = Vec::new();
    let ghost objs = objects.slots@;
    let mut ei: usize = 0;
    while ei < n
        invariant
            ei <= n,
            n == events@.len(),
            objs == objects.slots@,
            objects_wf(*objects),
            camera.wf(),
            msgs@ + scene_click_msgs(objs, *camera, *cursor, events@, ei as int)
                == scene_click_msgs(objs, *camera, *cursor, events@, 0),
        decreases n - ei,
    {
        let ghost msgs_pre = msgs@;
        let is_click = match &events[ei] {
            Event::MouseClick(_) => true,
            _ => false,
        };
        if is_click {
            let on = objects.slot_count();
            let mut oi: usize = 0;
            while oi < on
                invariant
                    oi <= on,
                    on == objs.len(),
                    objs == objects.slots@,
                    objects_wf(*objects),
                    camera.wf(),
                    msgs@ + click_msgs_at(objs, *camera, *cursor, oi as int) == msgs_pre
                        + click_msgs_at(objs, *camera, *cursor, 0),
                decreases on - oi,
            {
                let ghost msgs_inner = msgs@;
                match &objects.slots[oi] {
                    Slot::Full { generation, value } => {
                        if object_hit(value, camera, cursor) {
                            let h = Handle { index: oi, generation: *generation };
                            msgs.push((h, Message::ClickedOn));
                            proof {
                                let head = seq![(h, Message::ClickedOn)];
                                assert(msgs@ =~= msgs_inner + head);
                                assert(click_msgs_at(objs, *camera, *cursor, oi as int) == head
                                    + click_msgs_at(objs, *camera, *cursor, oi + 1));
                                assert((msgs_inner + head) + click_msgs_at(
                                    objs,
                                    *camera,
                                    *cursor,
                                    oi + 1,
                                ) =~= msgs_inner + (head + click_msgs_at(
                                    objs,
                                    *camera,
                                    *cursor,
                                    oi + 1,
                                )));
                            }
                        }
                    }
                    Slot::Vacant => {}
                }
                oi = oi + 1;
            }
            proof {
                assert(scene_click_msgs(objs, *camera, *cursor, events@, ei as int)
                    == click_msgs_at(objs, *camera, *cursor, 0) + scene_click_msgs(
                    objs,
                    *camera,
                    *cursor,
                    events@,
                    ei + 1,
                ));
                assert((msgs_pre + click_msgs_at(objs, *camera, *cursor, 0)) + scene_click_msgs(
                    objs,
                    *camera,
                    *cursor,
                    events@,
                    ei + 1,
                ) =~= msgs_pre + (click_msgs_at(objs, *camera, *cursor, 0) + scene_click_msgs(
                    objs,
                    *camera,
                    *cursor,
                    events@,
                    ei + 1,
                )));
            }
        } else {
            proof {
                assert(Seq::<(Handle, Message)>::empty() + scene_click_msgs(
                    objs,
                    *camera,
                    *cursor,
                    events@,
                    ei + 1,
                ) =~= scene_click_msgs(objs, *camera, *cursor, events@, ei + 1));
            }
        }
        ei = ei + 1;
    }
    proof {
        assert(msgs@ + Seq::<(Handle, Message)>::empty() =~= msgs@);
    }
    msgs
}

impl GuiState {
    /// Phase two: applies the collected state changes, marking rebuilt
    /// containers dirty and deleting the ones asked to go.
    fn apply_changes_exec(&mut self, changes: &Vec<(StateChange, Handle, Handle)>) -> (dirty: Vec<
        Handle,
    >)
        requires
            old(self).wf(),
        ensures
            final(self).wf(),
            (final(self).containers@, dirty@) == apply_changes(
                old(self).containers@,
                Seq::<Handle>::empty(),
                changes@,
                0,
            ),
    {
        let mut dirty: Vec<Handle> = Vec::new();
        let n = changes.len();
        let mut k: usize = 0;
        while k < n
            invariant
                k <= n,
                n == changes@.len(),
                self.wf(),
                apply_changes(self.containers@, dirty@, changes@, k as int) == apply_changes(
                    old(self).containers@,
                    Seq::<Handle>::empty(),
                    changes@,
                    0,
                ),
            decreases n - k,
        {
            let ghost cs_pre = self.containers@;
            let ghost dirty_pre = dirty@;
            let sc = changes[k].0;
            let owner = changes[k].1;
            let eh = changes[k].2;
            proof {
                assert(changes@[k as int] == (sc, owner, eh));
            }
            match sc {
                StateChange::NoChange => {}
                StateChange::NeedsRebuild => {
                    let idx = self.find_container(owner);
                    if idx < self.containers.len() {
                        let live = self.containers[idx].elements.get(eh).is_some();
                        if live {
                            push_unique_exec(&mut dirty, owner);
                        }
                    }
                }
                StateChange::DeleteContainer => {
                    let idx = self.find_container(owner);
                    if idx < self.containers.len() {
                        let _removed = self.containers.remove(idx);
                        push_unique_exec(&mut dirty, owner);
                        proof {
                            assert forall|j: int| 0 <= j < self.containers@.len() implies (
                            #[trigger] self.containers@[j]).wf() by {
                                if j < idx {
                                    assert(self.containers@[j] == cs_pre[j]);
                                } else {
                                    assert(self.containers@[j] == cs_pre[j + 1]);
                                }
                            }
                        }
                    }
                }
            }
            proof {
                assert((self.containers@, dirty@) == apply_change(
                    cs_pre,
                    dirty_pre,
                    changes@[k as int],
                ));
            }
            k = k + 1;
        }
        dirty
    }
}

/// Phase four: routes every collected message to the object its handle
/// names, in order; a message addressed to a stale or unknown handle is
/// dropped, not a fault.
fn deliver_messages(objects: &mut Store<SceneObject>, msgs: &Vec<(Handle, Message)>)
    requires
        objects_wf(*old(objects)),
    ensures
        objects_wf(*final(objects)),
        final(objects).slots@.len() == old(objects).slots@.len(),
        final(objects).generation == old(objects).generation,
        forall|i: int|
            0 <= i < old(objects).slots@.len() ==> delivery_slot_ok(
                old(objects).slots@[i],
                final(objects).slots@[i],
                i,
                msgs@,
            ),
{
    let n = msgs.len();
    let mut k: usize = 0;
    while k < n
        invariant
            k <= n,
            n == msgs@.len(),
            objects_wf(*objects),
            objects.slots@.len() == old(objects).slots@.len(),
            objects.generation == old(objects).generation,
            forall|i: int|
                0 <= i < old(objects).slots@.len() ==> delivery_slot_ok(
                    old(objects).slots@[i],
                    objects.slots@[i],
                    i,
                    msgs@.take(k as int),
                ),
        decreases n - k,
    {
        let h = msgs[k].0;
        let m = msgs[k].1;
        let ghost mid = objects.slots@;
        if h.index < objects.slots.len() {
            let slot = &mut objects.slots[h.index];
            match slot {
                Slot::Full { generation, value } => {
                    if *generation == h.generation {
                        value.process_message_g(&m);
                    }
                }
                Slot::Vacant => {}
            }
        }
        proof {
            assert(msgs@.take(k + 1).drop_last() =~= msgs@.take(k as int));
            assert(msgs@.take(k + 1).last() == msgs@[k as int]);
            assert forall|i: int| 0 <= i < old(objects).slots@.len() implies delivery_slot_ok(
                old(objects).slots@[i],
                objects.slots@[i],
                i,
                msgs@.take(k + 1),
            ) by {
                let pre = old(objects).slots@[i];
                let now = objects.slots@[i];
                assert(delivery_slot_ok(pre, mid[i], i, msgs@.take(k as int)));
                match pre {
                    Slot::Full { generation: g1, value: v1 } => {
                        let hi = Handle { index: i as usize, generation: g1 };
                        if h == hi {
                            assert(messages_for(hi, msgs@.take(k + 1)) == messages_for(
                                hi,
                                msgs@.take(k as int),
                            ).push(m));
                        } else {
                            assert(messages_for(hi, msgs@.take(k + 1)) == messages_for(
                                hi,
                                msgs@.take(k as int),
                            ));
                            assert(now == mid[i]);
                        }
                    }
                    Slot::Vacant => {
                        assert(mid[i] is Vacant);
                        assert(now == mid[i]);
                    }
                }
            }
        }
        k = k + 1;
    }
    proof {
        assert(msgs@.take(n as int) =~= msgs@);
    }
}

impl GuiState {
    /// Phase five: asks every live object for its UI, in slot order; a
    /// published container is stamped with its owner's handle and replaces
    /// any existing one, `NoGui` removes an existing one, and either way the
    /// owner is marked dirty.
    fn collect_emissions(&mut self, objects: &mut Store<SceneObject>, dirty: &mut Vec<Handle>)
        requires
            old(self).wf(),
            objects_wf(*old(objects)),
        ensures
            final(self).wf(),
            objects_wf(*final(objects)),
            final(objects).slots@.len() == old(objects).slots@.len(),
            final(objects).generation == old(objects).generation,
            forall|i: int|
                0 <= i < old(objects).slots@.len() ==> emission_slot_ok(
                    old(objects).slots@[i],
                    final(objects).slots@[i],
                ),
            (final(self).containers@, final(dirty)@) == apply_emissions(
                old(self).containers@,
                old(objects).slots@,
                old(dirty)@,
                0,
            ),
    {
        let n = objects.slot_count();
        let mut i: usize = 0;
        while i < n
            invariant
                i <= n,
                n == old(objects).slots@.len(),
                objects.slots@.len() == n,
                objects.generation == old(objects).generation,
                self.wf(),
                objects_wf(*objects),
                forall|j: int| i <= j < n ==> objects.slots@[j] == old(objects).slots@[j],
                forall|j: int|
                    0 <= j < i ==> emission_slot_ok(old(objects).slots@[j], objects.slots@[j]),
                apply_emissions(self.containers@, old(objects).slots@, dirty@, i as int)
                    == apply_emissions(old(self).containers@, old(objects).slots@, old(dirty)@, 0),
            decreases n - i,
        {
            let ghost cs_pre = self.containers@;
            let ghost dirty_pre = dirty@;
            let mut out_gen: u64 = 0;
            let mut out: Option<GetGuiOutput> = None;
            {
                let slot = &mut objects.slots[i];
                match slot {
                    Slot::Full { generation, value } => {
                        out_gen = *generation;
                        out = Some(value.get_gui_g());
                    }
                    Slot::Vacant => {}
                }
            }
            let ghost oldslot = old(objects).slots@[i as int];
            match out {
                Some(g) => {
                    let h = Handle { index: i, generation: out_gen };
                    proof {
                        assert(oldslot matches Slot::Full { generation, value } && generation
                            == out_gen && g == value.emit_output());
                    }
                    match g {
                        GetGuiOutput::Container(c) => {
                            proof {
                                assert(c.wf()) by {
                                    assert(oldslot->value.wf());
                                    assert(oldslot->value.pending_of() == Some(c));
                                }
                            }
                            let stamped = GuiContainer { elements: c.elements, parent_index: h };
                            let idx = self.find_container(h);
                            if idx < self.containers.len() {
                                self.containers.set(idx, stamped);
                            } else {
                                self.containers.push(stamped);
                            }
                            push_unique_exec(dirty, h);
                        }
                        GetGuiOutput::NoChange => {}
                        GetGuiOutput::NoGui => {
                            let idx = self.find_container(h);
                            if idx < self.containers.len() {
                                let _removed = self.containers.remove(idx);
                                push_unique_exec(dirty, h);
                                proof {
                                    assert forall|j: int| 0 <= j < self.containers@.len() implies (
                                    #[trigger] self.containers@[j]).wf() by {
                                        if j < idx {
                                            assert(self.containers@[j] == cs_pre[j]);
                                        } else {
                                            assert(self.containers@[j] == cs_pre[j + 1]);
                                        }
                                    }
                                }
                            }
                        }
                    }
                    proof {
                        let st = apply_emission(
                            cs_pre,
                            dirty_pre,
                            Handle { index: i as usize, generation: out_gen },
                            oldslot->value.emit_output(),
                        );
                        assert((self.containers@, dirty@) == st);
                    }
                }
                None => {
                    proof {
                        assert(oldslot is Vacant);
                        assert(objects.slots@[i as int] == oldslot);
                    }
                }
            }
            i = i + 1;
        }
    }
}

/// The resource a slot currently holds.
pub open spec fn slot_runtime(s: Slot<UiEntry>) -> Option<RuntimeModel> {
    match s {
        Slot::Full { value, .. } => value.runtime,
        Slot::Vacant => None,
    }
}

/// `find_owner` reads only the owner stamps, so updating container contents
/// does not move containers around.
pub proof fn lemma_find_owner_congruent(
    a: Seq<GuiContainer>,
    b: Seq<GuiContainer>,
    owner: Handle,
    i: int,
)
    requires
        a.len() == b.len(),
        forall|j: int| 0 <= j < a.len() ==> (#[trigger] a[j]).parent_index == b[j].parent_index,
    ensures
        find_owner(a, owner, i) == find_owner(b, owner, i),
    decreases a.len() - i,
{
    if 0 <= i < a.len() {
        lemma_find_owner_congruent(a, b, owner, i + 1);
    }
}

/// What one submission batch does to one container: nothing but filling the
/// element resource slots that the batch addresses.
pub open spec fn submit_container_ok(
    pre: GuiContainer,
    post: GuiContainer,
    cs: Seq<GuiContainer>,
    entries: Seq<((Handle, Handle), RuntimeModel)>,
    ci: int,
) -> bool {
    &&& post.parent_index == pre.parent_index
    &&& post.elements.generation == pre.elements.generation
    &&& post.elements.slots@.len() == pre.elements.slots@.len()
    &&& forall|ei: int|
        0 <= ei < pre.elements.slots@.len() ==> match (
            #[trigger] pre.elements.slots@[ei],
            post.elements.slots@[ei],
        ) {
            (Slot::Vacant, Slot::Vacant) => true,
            (
                Slot::Full { generation: g1, value: v1 },
                Slot::Full { generation: g2, value: v2 },
            ) => g2 == g1 && v2.element == v1.element && v2.runtime == runtime_after_submit(
                cs,
                entries,
                ci,
                ei,
                v1.runtime,
            ),
            _ => false,
        }
}

impl GuiState {
    /// Phase six: the geometry of every element of every dirty container
    /// that still exists, keyed by `(container owner, element handle)`.
    /// Non-dirty containers contribute nothing and are never resubmitted.
    fn build_diff_exec(&self, dirty: &Vec<Handle>) -> (diff: Vec<((Handle, Handle), Model)>)
        ensures
            diff_view(diff@) == build_diff(self.containers@, dirty@, 0),
    {
        let mut diff: Vec<((Handle, Handle), Model)> = Vec::new();
        let n = dirty.len();
        let ghost cs = self.containers@;
        let mut k: usize = 0;
        while k < n
            invariant
                k <= n,
                n == dirty@.len(),
                cs == self.containers@,
                diff_view(diff@) + build_diff(cs, dirty@, k as int) == build_diff(cs, dirty@, 0),
            decreases n - k,
        {
            let ghost dv_pre = diff_view(diff@);
            let idx = self.find_container(dirty[k]);
            if idx < self.containers.len() {
                let c = &self.containers[idx];
                let owner = c.parent_index;
                let ghost cc = *c;
                let en = c.elements.slot_count();
                let mut ei: usize = 0;
                while ei < en
                    invariant
                        ei <= en,
                        en == cc.elements.slots@.len(),
                        *c == cc,
                        owner == cc.parent_index,
                        diff_view(diff@) + container_diff(cc, ei as int) == dv_pre
                            + container_diff(cc, 0),
                    decreases en - ei,
                {
                    let ghost dv_inner = diff_view(diff@);
                    match &c.elements.slots[ei] {
                        Slot::Full { generation, value } => {
                            let eh = Handle { index: ei, generation: *generation };
                            let m = value.element.model.duplicate();
                            diff.push(((owner, eh), m));
                            proof {
                                let head = seq![((owner, eh), value.element.model@)];
                                assert(diff_view(diff@) =~= dv_inner + head);
                                assert(container_diff(cc, ei as int) == head + container_diff(
                                    cc,
                                    ei + 1,
                                ));
                                assert((dv_inner + head) + container_diff(cc, ei + 1) =~= dv_inner
                                    + (head + container_diff(cc, ei + 1)));
                            }
                        }
                        Slot::Vacant => {}
                    }
                    ei = ei + 1;
                }
                proof {
                    assert(build_diff(cs, dirty@, k as int) == container_diff(cc, 0) + build_diff(
                        cs,
                        dirty@,
                        k + 1,
                    ));
                    assert((dv_pre + container_diff(cc, 0)) + build_diff(cs, dirty@, k + 1)
                        =~= dv_pre + (container_diff(cc, 0) + build_diff(cs, dirty@, k + 1)));
                }
            } else {
                proof {
                    assert(Seq::<((Handle, Handle), ModelView)>::empty() + build_diff(
                        cs,
                        dirty@,
                        k + 1,
                    ) =~= build_diff(cs, dirty@, k + 1));
                }
            }
            k = k + 1;
        }
        proof {
            assert(diff_view(diff@) + Seq::<((Handle, Handle), ModelView)>::empty() =~= diff_view(
                diff@,
            ));
        }
        diff
    }

    /// Phase seven, the read-only draw query: every currently built UI
    /// resource, independent of dirtiness.
    pub fn get_runtime_model(&self) -> (v: Vec<RuntimeModel>)
        ensures
            v@ == all_runtimes(self.containers@, 0),
    {
        let mut v: Vec<RuntimeModel> = Vec::new();
        let n = self.containers.len();
        let ghost cs = self.containers@;
        let mut ci: usize = 0;
        while ci < n
            invariant
                ci <= n,
                n == cs.len(),
                cs == self.containers@,
                v@ + all_runtimes(cs, ci as int) == all_runtimes(cs, 0),
            decreases n - ci,
        {
            let ghost v_pre = v@;
            let c = &self.containers[ci];
            let ghost cc = *c;
            let en = c.elements.slot_count();
            let mut ei: usize = 0;
            while ei < en
                invariant
                    ei <= en,
                    en == cc.elements.slots@.len(),
                    *c == cc,
                    v@ + container_runtimes(cc, ei as int) == v_pre + container_runtimes(cc, 0),
                decreases en - ei,
            {
                let ghost v_inner = v@;
                match &c.elements.slots[ei] {
                    Slot::Full { value, .. } => {
                        match &value.runtime {
                            Some(r) => {
                                v.push(*r);
                                proof {
                                    let head = seq![*r];
                                    assert(v@ =~= v_inner + head);
                                    assert(container_runtimes(cc, ei as int) == head
                                        + container_runtimes(cc, ei + 1));
                                    assert((v_inner + head) + container_runtimes(cc, ei + 1)
                                        =~= v_inner + (head + container_runtimes(cc, ei + 1)));
                                }
                            }
                            None => {}
                        }
                    }
                    Slot::Vacant => {}
                }
                ei = ei + 1;
            }
            proof {
                assert(all_runtimes(cs, ci as int) == container_runtimes(cc, 0) + all_runtimes(
                    cs,
                    ci + 1,
                ));
                assert((v_pre + container_runtimes(cc, 0)) + all_runtimes(cs, ci + 1) =~= v_pre + (
                container_runtimes(cc, 0) + all_runtimes(cs, ci + 1)));
            }
            ci = ci + 1;
        }
        proof {
            assert(v@ + Seq::<RuntimeModel>::empty() =~= v@);
        }
        v
    }

    /// Stores backend-built UI resources back into their element slots; an
    /// entry naming a container or element that no longer exists is dropped.
    pub fn submit_model(&mut self, models: Vec<((Handle, Handle), RuntimeModel)>)
        requires
            old(self).wf(),
        ensures
            final(self).wf(),
            final(self).containers@.len() == old(self).containers@.len(),
            forall|ci: int|
                0 <= ci < old(self).containers@.len() ==> submit_container_ok(
                    old(self).containers@[ci],
                    final(self).containers@[ci],
                    old(self).containers@,
                    models@,
                    ci,
                ),
    {
        let n = models.len();
        let ghost cs0 = old(self).containers@;
        let mut k: usize = 0;
        while k < n
            invariant
                k <= n,
                n == models@.len(),
                self.wf(),
                self.containers@.len() == cs0.len(),
                forall|ci: int|
                    0 <= ci < cs0.len() ==> submit_container_ok(
                        cs0[ci],
                        self.containers@[ci],
                        cs0,
                        models@.take(k as int),
                        ci,
                    ),
            decreases n - k,
        {
            let ghost cs_mid = self.containers@;
            let owner = models[k].0.0;
            let eh = models[k].0.1;
            let rm = models[k].1;
            proof {
                assert forall|j: int| 0 <= j < cs0.len() implies (#[trigger] cs0[j]).parent_index
                    == self.containers@[j].parent_index by {
                    assert(submit_container_ok(
                        cs0[j],
                        self.containers@[j],
                        cs0,
                        models@.take(k as int),
                        j,
                    ));
                }
                lemma_find_owner_congruent(self.containers@, cs0, owner, 0);
            }
            let idx = self.find_container(owner);
            if idx < self.containers.len() {
                let cn = self.containers[idx].elements.slot_count();
                if eh.index < cn {
                    let slot = &mut self.containers[idx].elements.slots[eh.index];
                    match slot {
                        Slot::Full { generation, value } => {
                            if *generation == eh.generation {
                                value.runtime = Some(rm);
                            }
                        }
                        Slot::Vacant => {}
                    }
                }
            }
            proof {
                assert(models@.take(k + 1).drop_last() =~= models@.take(k as int));
                assert(models@.take(k + 1).last() == models@[k as int]);
                assert forall|ci: int| 0 <= ci < cs0.len() implies submit_container_ok(
                    cs0[ci],
                    self.containers@[ci],
                    cs0,
                    models@.take(k + 1),
                    ci,
                ) by {
                    assert(submit_container_ok(
                        cs0[ci],
                        cs_mid[ci],
                        cs0,
                        models@.take(k as int),
                        ci,
                    ));
                    let tgt = find_owner(cs0, owner, 0);
                    assert forall|ei: int|
                        0 <= ei < cs0[ci].elements.slots@.len() implies match (
                        #[trigger] cs0[ci].elements.slots@[ei],
                        self.containers@[ci].elements.slots@[ei],
                    ) {
                        (Slot::Vacant, Slot::Vacant) => true,
                        (
                            Slot::Full { generation: g1, value: v1 },
                            Slot::Full { generation: g2, value: v2 },
                        ) => g2 == g1 && v2.element == v1.element && v2.runtime
                            == runtime_after_submit(cs0, models@.take(k + 1), ci, ei, v1.runtime),
                        _ => false,
                    } by {
                        if ci == tgt && 0 <= ci < cs0.len() && cs0[ci].elements.live(eh)
                            && ei == eh.index {
                            assert(cs_mid[ci].elements.live(eh));
                            assert(runtime_after_submit(
                                cs0,
                                models@.take(k + 1),
                                ci,
                                ei,
                                cs0[ci].elements.slots@[ei]->value.runtime,
                            ) == Some(rm));
                        } else {
                            assert(runtime_after_submit(
                                cs0,
                                models@.take(k + 1),
                                ci,
                                ei,
                                slot_runtime(cs0[ci].elements.slots@[ei]),
                            ) == runtime_after_submit(
                                cs0,
                                models@.take(k as int),
                                ci,
                                ei,
                                slot_runtime(cs0[ci].elements.slots@[ei]),
                            ));
                        }
                    }
                }
            }
            k = k + 1;
        }
        proof {
            assert(models@.take(n as int) =~= models@);
        }
    }

    /// One frame of the dispatch engine, §step by step: fan the packet's
    /// events out over the UI (phase one), apply the requested state changes
    /// (two), hit-test the scene for clicks (three), deliver every message
    /// to its owning object (four), let objects publish or drop containers
    /// (five), and return the geometry diff of exactly the dirty containers
    /// (six).
    pub fn game_loop(
        &mut self,
        events: EventPacket,
        camera: &Camera,
        objects: &mut Store<SceneObject>,
    ) -> (diff: Vec<((Handle, Handle), Model)>)
        requires
            old(self).wf(),
            objects_wf(*old(objects)),
            camera.wf(),
        ensures
            final(self).wf(),
            objects_wf(*final(objects)),
            final(objects).slots@.len() == old(objects).slots@.len(),
            final(objects).generation == old(objects).generation,
            final(self).containers@ == spec_frame_containers_dirty(
                old(self).containers@,
                old(objects).slots@,
                events.mouse_position,
                events.events@,
            ).0,
            diff_view(diff@) == build_diff(
                spec_frame_containers_dirty(
                    old(self).containers@,
                    old(objects).slots@,
                    events.mouse_position,
                    events.events@,
                ).0,
                spec_frame_containers_dirty(
                    old(self).containers@,
                    old(objects).slots@,
                    events.mouse_position,
                    events.events@,
                ).1,
                0,
            ),
            forall|i: int|
                0 <= i < old(objects).slots@.len() ==> frame_slot_ok(
                    old(objects).slots@[i],
                    final(objects).slots@[i],
                    i,
                    spec_frame_messages(
                        old(self).containers@,
                        old(objects).slots@,
                        *camera,
                        events.mouse_position,
                        events.events@,
                    ),
                ),
    {
        let ghost cs0 = self.containers@;
        let ghost objs0 = objects.slots@;
        let cursor = events.mouse_position;
        let (changes, elem_messages) = self.collect_hits(&cursor, &events.events);
        let dirty0 = self.apply_changes_exec(&changes);
        let mut dirty = dirty0;
        let mut click_messages = scene_clicks(objects, camera, &cursor, &events.events);
        let mut messages = elem_messages;
        messages.append(&mut click_messages);
        proof {
            assert(messages@ == spec_frame_messages(cs0, objs0, *camera, cursor, events.events@));
        }
        deliver_messages(objects, &messages);
        let ghost mid_slots = objects.slots@;
        let ghost cs_mid = self.containers@;
        let ghost dirty_mid = dirty@;
        self.collect_emissions(objects, &mut dirty);
        proof {
            assert forall|j: int| 0 <= j < objs0.len() implies ((objs0[j] is Vacant
                <==> mid_slots[j] is Vacant) && ((#[trigger] objs0[j]) matches Slot::Full {
                generation: g1, value: v1 } ==> (mid_slots[j] matches Slot::Full {
                generation: g2, value: v2 } && g1 == g2 && v1.emit_output()
                == v2.emit_output()))) by {
                assert(delivery_slot_ok(objs0[j], mid_slots[j], j, messages@));
            }
            lemma_apply_emissions_congruent(cs_mid, objs0, mid_slots, dirty_mid, 0);
            assert((self.containers@, dirty@) == apply_emissions(cs_mid, objs0, dirty_mid, 0));
            assert((cs_mid, dirty_mid) == apply_changes(
                cs0,
                Seq::<Handle>::empty(),
                all_changes(cs0, events.events@, cursor, 0),
                0,
            ));
            assert((self.containers@, dirty@) == spec_frame_containers_dirty(
                cs0,
                objs0,
                cursor,
                events.events@,
            ));
            assert forall|i: int| 0 <= i < objs0.len() implies frame_slot_ok(
                objs0[i],
                objects.slots@[i],
                i,
                messages@,
            ) by {
                assert(delivery_slot_ok(objs0[i], mid_slots[i], i, messages@));
                assert(emission_slot_ok(mid_slots[i], objects.slots@[i]));
            }
        }
        let diff = self.build_diff_exec(&dirty);
        diff
    }
}

// ---------------------------------------------------------------------------
// Dirty-set minimality: only containers touched this frame — by an element
// requesting a rebuild or deletion, or by their owner publishing or
// withdrawing a container — ever appear in the geometry diff.
// ---------------------------------------------------------------------------

/// `h` was touched this frame: an element of `h`'s container asked for a
/// rebuild or deletion, or the object `h` published or withdrew a container.
pub open spec fn dirty_cause(
    h: Handle,
    cs0: Seq<GuiContainer>,
    objs: Seq<Slot<SceneObject>>,
    cursor: Point2,
    events: Seq<Event>,
) -> bool {
    ||| exists|k: int|
        0 <= k < all_changes(cs0, events, cursor, 0).len() && (#[trigger] all_changes(
            cs0,
            events,
            cursor,
            0,
        )[k]).1 == h && !(all_changes(cs0, events, cursor, 0)[k].0 is NoChange)
    ||| exists|i: int|
        0 <= i < objs.len() && ((#[trigger] objs[i]) matches Slot::Full { generation, value }
            && Handle { index: i as usize, generation } == h && !(value.emit_output() is NoChange))
}

/// When `find_owner` finds a container, it is the owner's; the result never
/// exceeds the container count.
pub proof fn lemma_find_owner_found(cs: Seq<GuiContainer>, owner: Handle, i: int)
    requires
        0 <= i,
    ensures
        0 <= find_owner(cs, owner, i) <= cs.len(),
        find_owner(cs, owner, i) < cs.len() ==> (i <= find_owner(cs, owner, i) && cs[find_owner(
            cs,
            owner,
            i,
        )].parent_index == owner),
    decreases cs.len() - i,
{
    if i < cs.len() {
        lemma_find_owner_found(cs, owner, i + 1);
    }
}

/// Every diff entry of one container carries that container's owner as key.
pub proof fn lemma_container_diff_key(c: GuiContainer, i: int, k: int)
    requires
        0 <= i,
        0 <= k < container_diff(c, i).len(),
    ensures
        container_diff(c, i)[k].0.0 == c.parent_index,
    decreases c.elements.slots@.len() - i,
{
    if i < c.elements.slots@.len() {
        match c.elements.slots@[i] {
            Slot::Full { generation, value } => {
                if k > 0 {
                    lemma_container_diff_key(c, i + 1, k - 1);
                }
            }
            Slot::Vacant => {
                lemma_container_diff_key(c, i + 1, k);
            }
        }
    }
}

/// Every diff entry's container key is one of the dirty handles.
pub proof fn lemma_diff_keys_are_dirty(cs: Seq<GuiContainer>, dirty: Seq<Handle>, k0: int, k: int)
    requires
        0 <= k0,
        0 <= k < build_diff(cs, dirty, k0).len(),
    ensures
        dirty.contains(build_diff(cs, dirty, k0)[k].0.0),
    decreases dirty.len() - k0,
{
    if k0 < dirty.len() {
        let idx = find_owner(cs, dirty[k0], 0);
        let here: Seq<((Handle, Handle), ModelView)> = if idx < cs.len() {
            container_diff(cs[idx], 0)
        } else {
            Seq::empty()
        };
        if k < here.len() {
            lemma_find_owner_found(cs, dirty[k0], 0);
            lemma_container_diff_key(cs[idx], 0, k);
            assert(build_diff(cs, dirty, k0)[k] == here[k]);
            assert(dirty[k0] == here[k].0.0);
        } else {
            lemma_diff_keys_are_dirty(cs, dirty, k0 + 1, k - here.len());
            assert(build_diff(cs, dirty, k0)[k] == build_diff(cs, dirty, k0 + 1)[k - here.len()]);
        }
    }
}

/// State application adds only owners of rebuild or delete requests to the
/// dirty set.
pub proof fn lemma_apply_changes_dirty(
    cs: Seq<GuiContainer>,
    dirty: Seq<Handle>,
    changes: Seq<(StateChange, Handle, Handle)>,
    k: int,
    h: Handle,
)
    requires
        0 <= k,
        apply_changes(cs, dirty, changes, k).1.contains(h),
    ensures
        dirty.contains(h) || exists|j: int|
            k <= j < changes.len() && (#[trigger] changes[j]).1 == h && !(changes[j].0 is NoChange),
    decreases changes.len() - k,
{
    if k < changes.len() {
        let st = apply_change(cs, dirty, changes[k]);
        lemma_apply_changes_dirty(st.0, st.1, changes, k + 1, h);
        if st.1.contains(h) && !dirty.contains(h) {
            assert(st.1 == push_unique(dirty, changes[k].1));
            assert(h == changes[k].1) by {
                if !dirty.contains(changes[k].1) {
                    let j = choose|j: int| 0 <= j < st.1.len() && st.1[j] == h;
                    if j < dirty.len() {
                        assert(dirty[j] == h);
                    }
                }
            }
        }
    }
}

/// Emission adds only owners that published or withdrew a container to the
/// dirty set.
pub proof fn lemma_apply_emissions_dirty(
    cs: Seq<GuiContainer>,
    objs: Seq<Slot<SceneObject>>,
    dirty: Seq<Handle>,
    i: int,
    h: Handle,
)
    requires
        0 <= i,
        apply_emissions(cs, objs, dirty, i).1.contains(h),
    ensures
        dirty.contains(h) || exists|j: int|
            i <= j < objs.len() && ((#[trigger] objs[j]) matches Slot::Full { generation, value }
                && Handle { index: j as usize, generation } == h && !(value.emit_output()
                is NoChange)),
    decreases objs.len() - i,
{
    if i < objs.len() {
        match objs[i] {
            Slot::Full { generation, value } => {
                let hi = Handle { index: i as usize, generation };
                let st = apply_emission(cs, dirty, hi, value.emit_output());
                lemma_apply_emissions_dirty(st.0, objs, st.1, i + 1, h);
                if st.1.contains(h) && !dirty.contains(h) {
                    assert(h == hi && !(value.emit_output() is NoChange)) by {
                        match value.emit_output() {
                            GetGuiOutput::Container(c) => {
                                assert(st.1 == push_unique(dirty, hi));
                                lemma_push_unique_contains(dirty, hi, h);
                            }
                            GetGuiOutput::NoChange => {}
                            GetGuiOutput::NoGui => {
                                if find_owner(cs, hi, 0) < cs.len() {
                                    assert(st.1 == push_unique(dirty, hi));
                                    lemma_push_unique_contains(dirty, hi, h);
                                }
                            }
                        }
                    }
                }
            }
            Slot::Vacant => {
                lemma_apply_emissions_dirty(cs, objs, dirty, i + 1, h);
            }
        }
    }
}

/// Membership in a unique-push: the old set or the pushed handle.
proof fn lemma_push_unique_contains(s: Seq<Handle>, x: Handle, h: Handle)
    requires
        push_unique(s, x).contains(h),
        !s.contains(h),
    ensures
        h == x,
{
    if !s.contains(x) {
        let j = choose|j: int| 0 <= j < push_unique(s, x).len() && push_unique(s, x)[j] == h;
        if j < s.len() {
            assert(s[j] == h);
        }
    }
}

/// Dirty-set minimality: a container key appears in a frame's geometry diff
/// only when that container's owner was touched this frame by a rebuild
/// request, a delete request, a published container, or a withdrawn one.  An
/// untouched container contributes no diff entry.
pub proof fn lemma_dirty_set_minimality(
    cs0: Seq<GuiContainer>,
    objs: Seq<Slot<SceneObject>>,
    cursor: Point2,
    events: Seq<Event>,
    k: int,
)
    requires
        0 <= k < build_diff(
            spec_frame_containers_dirty(cs0, objs, cursor, events).0,
            spec_frame_containers_dirty(cs0, objs, cursor, events).1,
            0,
        ).len(),
    ensures
        dirty_cause(
            build_diff(
                spec_frame_containers_dirty(cs0, objs, cursor, events).0,
                spec_frame_containers_dirty(cs0, objs, cursor, events).1,
                0,
            )[k].0.0,
            cs0,
            objs,
            cursor,
            events,
        ),
{
    let changes = all_changes(cs0, events, cursor, 0);
    let mid = apply_changes(cs0, Seq::<Handle>::empty(), changes, 0);
    let fin = apply_emissions(mid.0, objs, mid.1, 0);
    let key = build_diff(fin.0, fin.1, 0)[k].0.0;
    lemma_diff_keys_are_dirty(fin.0, fin.1, 0, k);
    lemma_apply_emissions_dirty(mid.0, objs, mid.1, 0, key);
    if mid.1.contains(key) {
        lemma_apply_changes_dirty(cs0, Seq::<Handle>::empty(), changes, 0, key);
    }
}

// ---------------------------------------------------------------------------
// Owner liveness: every live container's owner handle refers to a live scene
// object.  State application only removes containers, and emission only
// publishes containers stamped with the handle of the live object that
// emitted them, so one dispatch frame preserves the invariant.
// ---------------------------------------------------------------------------

/// Every container's owner resolves in the object store.
pub open spec fn owners_live(cs: Seq<GuiContainer>, objects: Store<SceneObject>) -> bool {
    forall|i: int| 0 <= i < cs.len() ==> objects.live((#[trigger] cs[i]).parent_index)
}

proof fn lemma_apply_changes_owners(
    cs: Seq<GuiContainer>,
    dirty: Seq<Handle>,
    changes: Seq<(StateChange, Handle, Handle)>,
    k: int,
    objects: Store<SceneObject>,
)
    requires
        owners_live(cs, objects),
    ensures
        owners_live(apply_changes(cs, dirty, changes, k).0, objects),
    decreases changes.len() - k,
{
    if 0 <= k < changes.len() {
        let st = apply_change(cs, dirty, changes[k]);
        assert(owners_live(st.0, objects)) by {
            let idx = find_owner(cs, changes[k].1, 0);
            if changes[k].0 is DeleteContainer && idx < cs.len() {
                lemma_find_owner_found(cs, changes[k].1, 0);
                cs.remove_ensures(idx);
                assert forall|j: int| 0 <= j < st.0.len() implies objects.live(
                    (#[trigger] st.0[j]).parent_index,
                ) by {
                    if j < idx {
                        assert(st.0[j] == cs[j]);
                    } else {
                        assert(st.0[j] == cs[j + 1]);
                    }
                }
            }
        }
        lemma_apply_changes_owners(st.0, st.1, changes, k + 1, objects);
    }
}

proof fn lemma_apply_emissions_owners(
    cs: Seq<GuiContainer>,
    dirty: Seq<Handle>,
    objects: Store<SceneObject>,
    i: int,
)
    requires
        owners_live(cs, objects),
        objects.slots@.len() <= usize::MAX,
    ensures
        owners_live(apply_emissions(cs, objects.slots@, dirty, i).0, objects),
    decreases objects.slots@.len() - i,
{
    let objs = objects.slots@;
    if 0 <= i < objs.len() {
        match objs[i] {
            Slot::Full { generation, value } => {
                let h = Handle { index: i as usize, generation };
                assert(objects.live(h));
                let st = apply_emission(cs, dirty, h, value.emit_output());
                assert(owners_live(st.0, objects)) by {
                    let idx = find_owner(cs, h, 0);
                    lemma_find_owner_found(cs, h, 0);
                    match value.emit_output() {
                        GetGuiOutput::Container(c) => {
                            assert forall|j: int| 0 <= j < st.0.len() implies objects.live(
                                (#[trigger] st.0[j]).parent_index,
                            ) by {
                                if idx < cs.len() {
                                    if j != idx {
                                        assert(st.0[j] == cs[j]);
                                    }
                                } else {
                                    if j < cs.len() {
                                        assert(st.0[j] == cs[j]);
                                    }
                                }
                            }
                        }
                        GetGuiOutput::NoChange => {}
                        GetGuiOutput::NoGui => {
                            if idx < cs.len() {
                                lemma_find_owner_found(cs, h, 0);
                                cs.remove_ensures(idx);
                                assert forall|j: int| 0 <= j < st.0.len() implies objects.live(
                                    (#[trigger] st.0[j]).parent_index,
                                ) by {
                                    if j < idx {
                                        assert(st.0[j] == cs[j]);
                                    } else {
                                        assert(st.0[j] == cs[j + 1]);
                                    }
                                }
                            }
                        }
                    }
                }
                lemma_apply_emissions_owners(st.0, st.1, objects, i + 1);
            }
            Slot::Vacant => {
                lemma_apply_emissions_owners(cs, dirty, objects, i + 1);
            }
        }
    }
}

/// A dispatch frame neither creates nor removes objects, so the set of live
/// handles is exactly what it was.
pub proof fn lemma_frame_preserves_liveness(
    a: Store<SceneObject>,
    b: Store<SceneObject>,
    msgs: Seq<(Handle, Message)>,
)
    requires
        b.slots@.len() == a.slots@.len(),
        forall|i: int|
            0 <= i < a.slots@.len() ==> frame_slot_ok(a.slots@[i], b.slots@[i], i, msgs),
    ensures
        forall|h: Handle| b.live(h) <==> a.live(h),
{
    assert forall|h: Handle| b.live(h) <==> a.live(h) by {
        if h.index < a.slots@.len() {
            assert(frame_slot_ok(a.slots@[h.index as int], b.slots@[h.index as int], h.index as int, msgs));
        }
    }
}

/// Owner liveness across one frame: when every container's owner was live
/// going in, every container's owner — survivors and newly published ones
/// alike — is live coming out.
pub proof fn lemma_owners_live_after_frame(
    cs0: Seq<GuiContainer>,
    a: Store<SceneObject>,
    b: Store<SceneObject>,
    msgs: Seq<(Handle, Message)>,
    cursor: Point2,
    events: Seq<Event>,
)
    requires
        owners_live(cs0, a),
        a.slots@.len() <= usize::MAX,
        b.slots@.len() == a.slots@.len(),
        forall|i: int|
            0 <= i < a.slots@.len() ==> frame_slot_ok(a.slots@[i], b.slots@[i], i, msgs),
    ensures
        owners_live(spec_frame_containers_dirty(cs0, a.slots@, cursor, events).0, b),
{
    let changes = all_changes(cs0, events, cursor, 0);
    let mid = apply_changes(cs0, Seq::<Handle>::empty(), changes, 0);
    lemma_apply_changes_owners(cs0, Seq::<Handle>::empty(), changes, 0, a);
    lemma_apply_emissions_owners(mid.0, mid.1, a, 0);
    lemma_frame_preserves_liveness(a, b, msgs);
    let fin = apply_emissions(mid.0, a.slots@, mid.1, 0);
    assert forall|i: int| 0 <= i < fin.0.len() implies b.live(
        (#[trigger] fin.0[i]).parent_index,
    ) by {
        assert(a.live(fin.0[i].parent_index));
    }
}

// ---------------------------------------------------------------------------
// Owner uniqueness: each scene object owns at most one container.  Deletion
// only removes containers; publication replaces the owner's existing
// container in place and only appends for owners that had none.
// ---------------------------------------------------------------------------

/// No two containers share an owner.
pub open spec fn owners_distinct(cs: Seq<GuiContainer>) -> bool {
    forall|i: int, j: int|
        0 <= i < j < cs.len() ==> (#[trigger] cs[i].parent_index) != (#[trigger] cs[j].parent_index)
}

/// When `find_owner` reports no container, no container has that owner.
pub proof fn lemma_find_owner_misses(cs: Seq<GuiContainer>, owner: Handle, i: int)
    requires
        0 <= i,
        find_owner(cs, owner, i) == cs.len(),
    ensures
        forall|j: int| i <= j < cs.len() ==> (#[trigger] cs[j]).parent_index != owner,
    decreases cs.len() - i,
{
    if i < cs.len() {
        lemma_find_owner_misses(cs, owner, i + 1);
    }
}

proof fn lemma_remove_distinct(cs: Seq<GuiContainer>, idx: int)
    requires
        owners_distinct(cs),
        0 <= idx < cs.len(),
    ensures
        owners_distinct(cs.remove(idx)),
{
    cs.remove_ensures(idx);
    let r = cs.remove(idx);
    assert forall|i: int, j: int| 0 <= i < j < r.len() implies (#[trigger] r[i].parent_index) != (
    #[trigger] r[j].parent_index) by {
        let i2 = if i < idx {
            i
        } else {
            i + 1
        };
        let j2 = if j < idx {
            j
        } else {
            j + 1
        };
        assert(r[i] == cs[i2] && r[j] == cs[j2]);
        assert(cs[i2].parent_index != cs[j2].parent_index);
    }
}

proof fn lemma_apply_changes_distinct(
    cs: Seq<GuiContainer>,
    dirty: Seq<Handle>,
    changes: Seq<(StateChange, Handle, Handle)>,
    k: int,
)
    requires
        owners_distinct(cs),
    ensures
        owners_distinct(apply_changes(cs, dirty, changes, k).0),
    decreases changes.len() - k,
{
    if 0 <= k < changes.len() {
        let st = apply_change(cs, dirty, changes[k]);
        assert(owners_distinct(st.0)) by {
            let idx = find_owner(cs, changes[k].1, 0);
            if changes[k].0 is DeleteContainer && idx < cs.len() {
                lemma_find_owner_found(cs, changes[k].1, 0);
                lemma_remove_distinct(cs, idx);
            }
        }
        lemma_apply_changes_distinct(st.0, st.1, changes, k + 1);
    }
}

proof fn lemma_apply_emissions_distinct(
    cs: Seq<GuiContainer>,
    objs: Seq<Slot<SceneObject>>,
    dirty: Seq<Handle>,
    i: int,
)
    requires
        owners_distinct(cs),
    ensures
        owners_distinct(apply_emissions(cs, objs, dirty, i).0),
    decreases objs.len() - i,
{
    if 0 <= i < objs.len() {
        match objs[i] {
            Slot::Full { generation, value } => {
                let h = Handle { index: i as usize, generation };
                let st = apply_emission(cs, dirty, h, value.emit_output());
                assert(owners_distinct(st.0)) by {
                    let idx = find_owner(cs, h, 0);
                    lemma_find_owner_found(cs, h, 0);
                    match value.emit_output() {
                        GetGuiOutput::Container(c) => {
                            let stamped = GuiContainer { elements: c.elements, parent_index: h };
                            if idx < cs.len() {
                                let u = cs.update(idx, stamped);
                                assert forall|a: int, b: int| 0 <= a < b < u.len() implies (
                                #[trigger] u[a].parent_index) != (#[trigger] u[b].parent_index) by {
                                    if a != idx && b != idx {
                                        assert(u[a] == cs[a] && u[b] == cs[b]);
                                    } else if a == idx {
                                        assert(u[b] == cs[b]);
                                        assert(cs[idx].parent_index == h);
                                        assert(cs[b].parent_index != h);
                                    } else {
                                        assert(u[a] == cs[a]);
                                        assert(cs[idx].parent_index == h);
                                        assert(cs[a].parent_index != h);
                                    }
                                }
                            } else {
                                lemma_find_owner_misses(cs, h, 0);
                                let u = cs.push(stamped);
                                assert forall|a: int, b: int| 0 <= a < b < u.len() implies (
                                #[trigger] u[a].parent_index) != (#[trigger] u[b].parent_index) by {
                                    if b < cs.len() {
                                        assert(u[a] == cs[a] && u[b] == cs[b]);
                                    } else {
                                        assert(u[a] == cs[a] && u[b] == stamped);
                                        assert(cs[a].parent_index != h);
                                    }
                                }
                            }
                        }
                        GetGuiOutput::NoChange => {}
                        GetGuiOutput::NoGui => {
                            if idx < cs.len() {
                                lemma_remove_distinct(cs, idx);
                            }
                        }
                    }
                }
                lemma_apply_emissions_distinct(st.0, objs, st.1, i + 1);
            }
            Slot::Vacant => {
                lemma_apply_emissions_distinct(cs, objs, dirty, i + 1);
            }
        }
    }
}

/// Owner uniqueness across one frame: when no two containers shared an owner
/// going in, none do coming out — a published container replaces the owner's
/// existing one rather than joining it.
pub proof fn lemma_owner_uniqueness_after_frame(
    cs0: Seq<GuiContainer>,
    objs: Seq<Slot<SceneObject>>,
    cursor: Point2,
    events: Seq<Event>,
)
    requires
        owners_distinct(cs0),
    ensures
        owners_distinct(spec_frame_containers_dirty(cs0, objs, cursor, events).0),
{
    let changes = all_changes(cs0, events, cursor, 0);
    let mid = apply_changes(cs0, Seq::<Handle>::empty(), changes, 0);
    lemma_apply_changes_distinct(cs0, Seq::<Handle>::empty(), changes, 0);
    lemma_apply_emissions_distinct(mid.0, objs, mid.1, 0);
}

} // verus!
