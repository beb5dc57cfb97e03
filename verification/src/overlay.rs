//! The overlay: where a click lands, and what is drawn over the screen.
//!
//! The overlay is a single fullscreen surface whose input region is only the
//! union of its zones: the original position of each moved widget, where clicks
//! are stale and swallowed, and the position to which the widget was moved,
//! where clicks are real and forwarded to the original. Every other click falls
//! through to the application underneath.
//!
//! This module holds the overlay's state and everything it decides: how it
//! answers the compositor's events, which rectangles claim input, and the
//! pixels of the frame. The caller talks to the compositor.
use vstd::prelude::*;

use crate::frame::BufferLayout;
use crate::text::same_text;
use crate::types::Rect;
#[allow(unused_imports)]
use crate::types::in_i32;

verus! {

/// One rectangle that the overlay owns input for, and what it stands for.
#[derive(Debug, Clone, Copy)]
pub enum ActiveZone {
    /// A widget's original position: clicks here are stale.
    Mask(Rect),
    /// A widget's relocated position: clicks here are forwarded to
    /// `forward_to`.
    Relocated { visible_at: Rect, forward_to: Rect },
}

/// A real click on the overlay.
#[derive(Debug, Clone, Copy)]
pub struct OverlayClick {
    /// Where to deliver the click: a point of the widget's original rectangle.
    pub forward_to: (i32, i32),
}

impl ActiveZone {
    /// The rectangle on screen that the zone claims.
    pub open spec fn area(self) -> Rect {
        match self {
            ActiveZone::Mask(rect) => rect,
            ActiveZone::Relocated { visible_at, .. } => visible_at,
        }
    }

    /// The zone's placeholder color: alpha last, after red, green and blue.
    pub open spec fn color(self) -> Seq<u8> {
        match self {
            ActiveZone::Mask(_) => seq![180u8, 180u8, 180u8, 235u8],
            ActiveZone::Relocated { .. } => seq![60u8, 130u8, 220u8, 255u8],
        }
    }

    pub fn rect(&self) -> (rect: Rect)
        ensures
            rect == self.area(),
    {
        match self {
            ActiveZone::Mask(rect) => *rect,
            ActiveZone::Relocated { visible_at, .. } => *visible_at,
        }
    }

    pub fn argb(&self) -> (argb: [u8; 4])
        ensures
            argb@ == self.color(),
    {
        match self {
            ActiveZone::Mask(_) => [180, 180, 180, 235],
            ActiveZone::Relocated { .. } => [60, 130, 220, 255],
        }
    }
}

/// Where a click at `(x, y)` is forwarded: the middle of the original rectangle
/// of the first relocated widget that is shown there.
pub open spec fn click_target(zones: Seq<ActiveZone>, x: int, y: int) -> Option<(int, int)>
    decreases zones.len(),
{
    if zones.len() == 0 {
        None
    } else {
        match zones[0] {
            ActiveZone::Relocated { visible_at, forward_to } if visible_at.covers(x, y) => Some(
                forward_to.middle(),
            ),
            _ => click_target(zones.drop_first(), x, y),
        }
    }
}

/// Resolving a click at `(x, y)` stays within `i32` on every rectangle that it
/// looks at.
pub open spec fn can_resolve(zones: Seq<ActiveZone>, x: int, y: int) -> bool
    decreases zones.len(),
{
    zones.len() == 0 || match zones[0] {
        ActiveZone::Relocated { visible_at, forward_to } => {
            &&& visible_at.can_test(x, y)
            &&& if visible_at.covers(x, y) {
                forward_to.has_center()
            } else {
                can_resolve(zones.drop_first(), x, y)
            }
        },
        ActiveZone::Mask(_) => can_resolve(zones.drop_first(), x, y),
    }
}

/// Where a click at `(x, y)` is to be forwarded, if anywhere.
pub fn resolve_zone_click(zones: &[ActiveZone], x: i32, y: i32) -> (target: Option<(i32, i32)>)
    requires
        can_resolve(zones@, x as int, y as int),
    ensures
        match target {
            Some(point) => click_target(zones@, x as int, y as int) == Some(
                (point.0 as int, point.1 as int),
            ),
            None => click_target(zones@, x as int, y as int) is None,
        },
{
    let mut i: usize = 0;
    proof {
        assert(zones@.skip(0) =~= zones@);
    }
    while i < zones.len()
        invariant
            i <= zones.len(),
            can_resolve(zones@.skip(i as int), x as int, y as int),
            click_target(zones@.skip(i as int), x as int, y as int) == click_target(
                zones@,
                x as int,
                y as int,
            ),
        decreases zones.len() - i,
    {
        proof {
            assert(zones@.skip(i as int).drop_first() =~= zones@.skip(i + 1));
            assert(zones@.skip(i as int)[0] == zones@[i as int]);
        }
        if let ActiveZone::Relocated { visible_at, forward_to } = &zones[i] {
            if visible_at.contains(x, y) {
                return Some(forward_to.center());
            }
        }
        i = i + 1;
    }
    None
}

/// Whether [`resolve_zone_click`] may be asked about `(x, y)`.
pub fn zone_click_in_range(zones: &[ActiveZone], x: i32, y: i32) -> (ok: bool)
    ensures
        ok == can_resolve(zones@, x as int, y as int),
{
    let mut i: usize = 0;
    proof {
        assert(zones@.skip(0) =~= zones@);
    }
    while i < zones.len()
        invariant
            i <= zones.len(),
            can_resolve(zones@.skip(i as int), x as int, y as int) == can_resolve(
                zones@,
                x as int,
                y as int,
            ),
        decreases zones.len() - i,
    {
        proof {
            assert(zones@.skip(i as int).drop_first() =~= zones@.skip(i + 1));
            assert(zones@.skip(i as int)[0] == zones@[i as int]);
        }
        if let ActiveZone::Relocated { visible_at, forward_to } = &zones[i] {
            if !visible_at.test_in_range(x, y) {
                return false;
            }
            if visible_at.contains(x, y) {
                return forward_to.center_in_range();
            }
        }
        i = i + 1;
    }
    true
}

/// A click that no relocated widget is shown under is swallowed; in particular
/// a mask alone never forwards anything.
pub proof fn law_stale_click_is_swallowed(zones: Seq<ActiveZone>, x: int, y: int)
    requires
        forall|i: int|
            0 <= i < zones.len() && (#[trigger] zones[i]) is Relocated ==> !zones[i].area().covers(
                x,
                y,
            ),
    ensures
        click_target(zones, x, y) is None,
    decreases zones.len(),
{
    if zones.len() > 0 {
        assert forall|i: int|
            0 <= i < zones.drop_first().len() && (#[trigger] zones.drop_first()[i]) is Relocated
            implies !zones.drop_first()[i].area().covers(x, y) by {
            assert(zones.drop_first()[i] == zones[i + 1]);
        }
        law_stale_click_is_swallowed(zones.drop_first(), x, y);
    }
}

/// A forwarded click comes from a relocated widget shown under the pointer, and
/// it lands inside that widget's original rectangle whenever the rectangle has
/// an inside.
pub proof fn law_forwarded_click_lands_on_original(zones: Seq<ActiveZone>, x: int, y: int)
    requires
        click_target(zones, x, y) is Some,
    ensures
        exists|i: int| #[trigger]
            forwards_from(zones, x, y, i),
    decreases zones.len(),
{
    match zones[0] {
        ActiveZone::Relocated { visible_at, forward_to } if visible_at.covers(x, y) => {
            if forward_to.w > 0 && forward_to.h > 0 {
                crate::types::law_center_is_inside(forward_to);
            }
            assert(forwards_from(zones, x, y, 0));
        },
        _ => {
            law_forwarded_click_lands_on_original(zones.drop_first(), x, y);
            let i = choose|i: int| forwards_from(zones.drop_first(), x, y, i);
            assert(zones.drop_first()[i] == zones[i + 1]);
            assert(forwards_from(zones, x, y, i + 1));
        },
    }
}

/// Zone `i` is a relocated widget under `(x, y)`, and the click's target lies
/// in the widget's original rectangle.
pub open spec fn forwards_from(zones: Seq<ActiveZone>, x: int, y: int, i: int) -> bool {
    &&& 0 <= i < zones.len()
    &&& zones[i] matches ActiveZone::Relocated { visible_at, forward_to }
    &&& visible_at.covers(x, y)
    &&& click_target(zones, x, y) matches Some(point)
    &&& point == forward_to.middle()
    &&& forward_to.w > 0 && forward_to.h > 0 ==> forward_to.covers(point.0, point.1)
}

/// A global object of the compositor that the overlay uses.
#[derive(Debug, Clone, Copy, PartialEq, Eq, Structural)]
pub enum Global {
    Compositor,
    Shm,
    Seat,
    Output,
    LayerShell,
}

impl Global {
    /// The object that is advertised under `interface`, if the overlay uses it.
    pub open spec fn advertised(interface: Seq<char>) -> Option<Global> {
        if interface == "wl_compositor"@ {
            Some(Global::Compositor)
        } else if interface == "wl_shm"@ {
            Some(Global::Shm)
        } else if interface == "wl_seat"@ {
            Some(Global::Seat)
        } else if interface == "wl_output"@ {
            Some(Global::Output)
        } else if interface == "zwlr_layer_shell_v1"@ {
            Some(Global::LayerShell)
        } else {
            None
        }
    }

    /// The newest version of the interface that the overlay speaks.
    pub open spec fn newest(self) -> u32 {
        match self {
            Global::Compositor => 4,
            Global::Shm => 1,
            Global::Seat => 7,
            Global::Output => 4,
            Global::LayerShell => 4,
        }
    }

    /// The object that is advertised under `interface`, if the overlay uses it.
    pub fn named(interface: &str) -> (global: Option<Global>)
        ensures
            global == Global::advertised(interface@),
    {
        if same_text(interface, "wl_compositor") {
            Some(Global::Compositor)
        } else if same_text(interface, "wl_shm") {
            Some(Global::Shm)
        } else if same_text(interface, "wl_seat") {
            Some(Global::Seat)
        } else if same_text(interface, "wl_output") {
            Some(Global::Output)
        } else if same_text(interface, "zwlr_layer_shell_v1") {
            Some(Global::LayerShell)
        } else {
            None
        }
    }

    /// The version to bind when the compositor offers `offered`.
    pub fn bind_version(&self, offered: u32) -> (version: u32)
        ensures
            version == (if offered < self.newest() {
                offered
            } else {
                self.newest()
            }),
    {
        let newest: u32 = match self {
            Global::Compositor => 4,
            Global::Shm => 1,
            Global::Seat => 7,
            Global::Output => 4,
            Global::LayerShell => 4,
        };
        if offered < newest {
            offered
        } else {
            newest
        }
    }
}

/// Why the overlay cannot be set up.
#[derive(Debug, Clone, Copy, PartialEq, Eq, Structural)]
pub enum ConnectError {
    NoCompositor,
    NoShm,
    NoLayerShell,
}

impl ConnectError {
    pub open spec fn words(self) -> Seq<char> {
        match self {
            ConnectError::NoCompositor => "compositor did not advertise wl_compositor"@,
            ConnectError::NoShm => "compositor did not advertise wl_shm"@,
            ConnectError::NoLayerShell => {
                "compositor did not advertise zwlr_layer_shell_v1 -- is this a wlroots-based compositor?"@
            },
        }
    }

    /// The reason, in words.
    pub fn message(&self) -> (text: String)
        ensures
            text@ == self.words(),
    {
        match self {
            ConnectError::NoCompositor => {
                "compositor did not advertise wl_compositor".to_string()
            },
            ConnectError::NoShm => "compositor did not advertise wl_shm".to_string(),
            ConnectError::NoLayerShell => {
                "compositor did not advertise zwlr_layer_shell_v1 -- is this a wlroots-based compositor?".to_string()
            },
        }
    }
}

/// Where a surface stands in the stack, from the bottom up.
#[derive(Debug, Clone, Copy, PartialEq, Eq, Structural)]
pub enum SurfaceLayer {
    Background,
    Bottom,
    Top,
    Overlay,
}

/// How the overlay's surface is to be set up.
#[derive(Debug, Clone, Copy, PartialEq, Eq, Structural)]
pub struct SurfaceSetup {
    /// Ask the seat for its pointer first.
    pub get_pointer: bool,
    /// Put the surface on this layer.
    pub layer: SurfaceLayer,
    /// Attach the surface to all four edges of the output.
    pub anchor_all: bool,
    /// Reserve no space for the surface.
    pub exclusive_zone: i32,
    /// Take keyboard input.
    pub keyboard: bool,
}

/// Something that the compositor reports.
#[derive(Debug)]
pub enum OverlayEvent {
    /// A global object is available.
    Global { interface: String, version: u32 },
    /// The surface has this size in logical pixels.
    Configure { width: u32, height: u32 },
    /// The surface was taken away.
    Closed,
    /// The pointer moved to this point of the surface.
    Motion { x: i32, y: i32 },
    /// A button was pressed or released.
    Button { pressed: bool },
    /// The seat has, or has not, a pointer.
    Capabilities { pointer: bool },
    /// The output's scale factor.
    Scale { factor: i32 },
}

/// What to do about an event.
#[derive(Debug, Clone, Copy)]
pub enum OverlayAction {
    Nothing,
    /// Bind the object at this version.
    Bind { global: Global, version: u32 },
    /// Acknowledge the new size.
    AckConfigure,
    /// Tell that the surface is gone.
    ReportClosed,
    /// Hand on a click.
    Click { click: OverlayClick },
    /// Ask the seat for its pointer.
    GetPointer,
}

/// What the overlay knows and has.
#[derive(Debug)]
pub struct OverlayState {
    /// Which objects it has.
    pub compositor: bool,
    pub shm: bool,
    pub layer_shell: bool,
    pub seat: bool,
    pub output: bool,
    pub pointer: bool,
    pub surface: bool,
    /// The output's size in logical pixels.
    pub output_size: (i32, i32),
    /// Buffer pixels per logical pixel.
    pub output_scale: i32,
    pub configured: bool,
    pub zones: Vec<ActiveZone>,
    /// Where the pointer was last seen, in logical pixels.
    pub last_pointer_pos: (i32, i32),
}

/// What an [`OverlayState`] holds.
#[verifier::ext_equal]
pub struct Overlay {
    pub compositor: bool,
    pub shm: bool,
    pub layer_shell: bool,
    pub seat: bool,
    pub output: bool,
    pub pointer: bool,
    pub surface: bool,
    pub output_size: (i32, i32),
    pub output_scale: i32,
    pub configured: bool,
    pub zones: Seq<ActiveZone>,
    pub last_pointer_pos: (i32, i32),
}

impl View for OverlayState {
    type V = Overlay;

    open spec fn view(&self) -> Overlay {
        Overlay {
            compositor: self.compositor,
            shm: self.shm,
            layer_shell: self.layer_shell,
            seat: self.seat,
            output: self.output,
            pointer: self.pointer,
            surface: self.surface,
            output_size: self.output_size,
            output_scale: self.output_scale,
            configured: self.configured,
            zones: self.zones@,
            last_pointer_pos: self.last_pointer_pos,
        }
    }
}

/// A 32-bit pattern read as a signed number.
pub open spec fn signed(n: u32) -> int {
    if n < 0x8000_0000 {
        n as int
    } else {
        n - 0x1_0000_0000
    }
}

impl Overlay {
    /// An overlay that has nothing yet.
    pub open spec fn initial() -> Overlay {
        Overlay {
            compositor: false,
            shm: false,
            layer_shell: false,
            seat: false,
            output: false,
            pointer: false,
            surface: false,
            output_size: (0, 0),
            output_scale: 1,
            configured: false,
            zones: Seq::empty(),
            last_pointer_pos: (0, 0),
        }
    }

    /// The overlay with one more object.
    pub open spec fn with_global(self, global: Global) -> Overlay {
        match global {
            Global::Compositor => Overlay { compositor: true, ..self },
            Global::Shm => Overlay { shm: true, ..self },
            Global::Seat => Overlay { seat: true, ..self },
            Global::Output => Overlay { output: true, ..self },
            Global::LayerShell => Overlay { layer_shell: true, ..self },
        }
    }

    /// The advertised object, if the overlay uses it and still wants it: only
    /// the first output is tracked.
    pub open spec fn wanted(self, interface: Seq<char>) -> Option<Global> {
        match Global::advertised(interface) {
            Some(Global::Output) if self.output => None,
            global => global,
        }
    }

    /// Handling the event stays within `i32`.
    pub open spec fn can_handle(self, event: OverlayEvent) -> bool {
        event matches OverlayEvent::Button { pressed: true } ==> can_resolve(
            self.zones,
            self.last_pointer_pos.0 as int,
            self.last_pointer_pos.1 as int,
        )
    }

    /// The point to which a button press is forwarded.
    pub open spec fn press_target(self) -> Option<(int, int)> {
        click_target(
            self.zones,
            self.last_pointer_pos.0 as int,
            self.last_pointer_pos.1 as int,
        )
    }

    /// How an event changes the overlay.
    pub open spec fn after(self, event: OverlayEvent) -> Overlay {
        match event {
            OverlayEvent::Global { interface, .. } => match self.wanted(interface@) {
                Some(global) => self.with_global(global),
                None => self,
            },
            OverlayEvent::Configure { width, height } => Overlay {
                output_size: (signed(width) as i32, signed(height) as i32),
                configured: true,
                ..self
            },
            OverlayEvent::Motion { x, y } => Overlay { last_pointer_pos: (x, y), ..self },
            OverlayEvent::Capabilities { pointer } => Overlay {
                pointer: self.pointer || pointer,
                ..self
            },
            OverlayEvent::Scale { factor } => Overlay {
                output_scale: if factor > 1 {
                    factor
                } else {
                    1
                },
                ..self
            },
            _ => self,
        }
    }

    /// The action belongs to the event.
    pub open spec fn answers(self, event: OverlayEvent, action: OverlayAction) -> bool {
        match event {
            OverlayEvent::Global { interface, version } => match self.wanted(interface@) {
                Some(global) => action == (OverlayAction::Bind {
                    global,
                    version: if version < global.newest() {
                        version
                    } else {
                        global.newest()
                    },
                }),
                None => action is Nothing,
            },
            OverlayEvent::Configure { .. } => action is AckConfigure,
            OverlayEvent::Closed => action is ReportClosed,
            OverlayEvent::Motion { .. } => action is Nothing,
            OverlayEvent::Button { pressed } => match action {
                OverlayAction::Click { click } => pressed && self.press_target() == Some(
                    (click.forward_to.0 as int, click.forward_to.1 as int),
                ),
                OverlayAction::Nothing => !pressed || self.press_target() is None,
                _ => false,
            },
            OverlayEvent::Capabilities { pointer } => if pointer && !self.pointer {
                action is GetPointer
            } else {
                action is Nothing
            },
            OverlayEvent::Scale { .. } => action is Nothing,
        }
    }

    /// Buffer pixels per logical pixel, never less than one.
    pub open spec fn scale(self) -> int {
        if self.output_scale > 1 {
            self.output_scale as int
        } else {
            1
        }
    }

    /// The rectangles that claim input.
    pub open spec fn input_region(self) -> Seq<Rect> {
        self.zones.map_values(|zone: ActiveZone| zone.area())
    }

    /// A frame can be drawn: the output has a size, and there is shared memory.
    pub open spec fn drawable(self) -> bool {
        self.output_size.0 != 0 && self.output_size.1 != 0 && self.shm
    }

    /// The layout of the frame's buffer.
    pub open spec fn layout(self) -> Option<BufferLayout> {
        if self.drawable() {
            Some(
                BufferLayout::of(
                    self.output_size.0 as int,
                    self.output_size.1 as int,
                    self.scale(),
                ),
            )
        } else {
            None
        }
    }

    /// The whole output in buffer pixels.
    pub open spec fn damage(self) -> (int, int) {
        (self.output_size.0 * self.scale(), self.output_size.1 * self.scale())
    }

    /// The sizes of a redraw are within `i32`.
    pub open spec fn can_redraw(self) -> bool {
        self.compositor && self.surface ==> {
            &&& self.drawable() ==> BufferLayout::fits(
                self.output_size.0 as int,
                self.output_size.1 as int,
                self.scale(),
            )
            &&& in_i32(self.damage().0)
            &&& in_i32(self.damage().1)
        }
    }
}

/// What a redraw consists of.
#[derive(Debug)]
pub struct RedrawPlan {
    /// The surface's new input region.
    pub region: Vec<Rect>,
    /// The buffer to render and attach, if a frame can be drawn.
    pub buffer: Option<BufferLayout>,
    /// The extent of the damage, in buffer pixels.
    pub damage: (i32, i32),
}

impl OverlayState {
    pub fn new() -> (state: OverlayState)
        ensures
            state@ == Overlay::initial(),
    {
        OverlayState {
            compositor: false,
            shm: false,
            layer_shell: false,
            seat: false,
            output: false,
            pointer: false,
            surface: false,
            output_size: (0, 0),
            output_scale: 1,
            configured: false,
            zones: Vec::new(),
            last_pointer_pos: (0, 0),
        }
    }

    /// Takes note of an event and says what to do about it.
    pub fn handle(&mut self, event: &OverlayEvent) -> (action: OverlayAction)
        requires
            old(self)@.can_handle(*event),
        ensures
            old(self)@.answers(*event, action),
            final(self)@ == old(self)@.after(*event),
    {
        match event {
            OverlayEvent::Global { interface, version } => {
                match Global::named(interface.as_str()) {
                    Some(global) => self.take_global(global, *version),
                    None => OverlayAction::Nothing,
                }
            },
            OverlayEvent::Configure { width, height } => {
                self.output_size = (to_signed(*width), to_signed(*height));
                self.configured = true;
                OverlayAction::AckConfigure
            },
            OverlayEvent::Closed => OverlayAction::ReportClosed,
            OverlayEvent::Motion { x, y } => {
                self.last_pointer_pos = (*x, *y);
                OverlayAction::Nothing
            },
            OverlayEvent::Button { pressed } => {
                if !*pressed {
                    return OverlayAction::Nothing;
                }
                let (x, y): (i32, i32) = self.last_pointer_pos;
                match resolve_zone_click(self.zones.as_slice(), x, y) {
                    Some(point) => OverlayAction::Click {
                        click: OverlayClick { forward_to: point },
                    },
                    None => OverlayAction::Nothing,
                }
            },
            OverlayEvent::Capabilities { pointer } => {
                if *pointer && !self.pointer {
                    self.pointer = true;
                    OverlayAction::GetPointer
                } else {
                    OverlayAction::Nothing
                }
            },
            OverlayEvent::Scale { factor } => {
                self.output_scale = if *factor > 1 { *factor } else { 1 };
                OverlayAction::Nothing
            },
        }
    }

    /// Takes an advertised object, unless it is a second output.
    fn take_global(&mut self, global: Global, version: u32) -> (action: OverlayAction)
        ensures
            if global is Output && old(self)@.output {
                action is Nothing && final(self)@ == old(self)@
            } else {
                &&& action == (OverlayAction::Bind {
                    global,
                    version: if version < global.newest() {
                        version
                    } else {
                        global.newest()
                    },
                })
                &&& final(self)@ == old(self)@.with_global(global)
            },
    {
        match global {
            Global::Compositor => {
                self.compositor = true;
            },
            Global::Shm => {
                self.shm = true;
            },
            Global::Seat => {
                self.seat = true;
            },
            Global::Output => {
                if self.output {
                    return OverlayAction::Nothing;
                }
                self.output = true;
            },
            Global::LayerShell => {
                self.layer_shell = true;
            },
        }
        OverlayAction::Bind { global, version: global.bind_version(version) }
    }

    /// Whether [`OverlayState::handle`] may be given this event.
    pub fn event_in_range(&self, event: &OverlayEvent) -> (ok: bool)
        ensures
            ok == self@.can_handle(*event),
    {
        match event {
            OverlayEvent::Button { pressed } => !*pressed || zone_click_in_range(
                self.zones.as_slice(),
                self.last_pointer_pos.0,
                self.last_pointer_pos.1,
            ),
            _ => true,
        }
    }

    /// Once the objects are known, says how to set up the surface. The pointer
    /// is asked for if there is a seat.
    pub fn set_up(&mut self) -> (setup: Result<SurfaceSetup, ConnectError>)
        ensures
            match setup {
                Ok(setup) => {
                    &&& old(self)@.compositor && old(self)@.shm && old(self)@.layer_shell
                    &&& setup == (SurfaceSetup {
                        get_pointer: old(self)@.seat,
                        layer: SurfaceLayer::Overlay,
                        anchor_all: true,
                        exclusive_zone: (-1) as i32,
                        keyboard: false,
                    })
                    &&& final(self)@ == (Overlay {
                        pointer: old(self)@.pointer || old(self)@.seat,
                        surface: true,
                        ..old(self)@
                    })
                },
                Err(error) => {
                    &&& error is NoCompositor <==> !old(self)@.compositor
                    &&& error is NoShm <==> old(self)@.compositor && !old(self)@.shm
                    &&& error is NoLayerShell <==> old(self)@.compositor && old(self)@.shm
                        && !old(self)@.layer_shell
                    &&& final(self)@ == old(self)@
                },
            },
    {
        if !self.compositor {
            return Err(ConnectError::NoCompositor);
        }
        if !self.shm {
            return Err(ConnectError::NoShm);
        }
        if !self.layer_shell {
            return Err(ConnectError::NoLayerShell);
        }
        if self.seat {
            self.pointer = true;
        }
        self.surface = true;
        Ok(
            SurfaceSetup {
                get_pointer: self.seat,
                layer: SurfaceLayer::Overlay,
                anchor_all: true,
                exclusive_zone: -1,
                keyboard: false,
            },
        )
    }

    /// The rectangles that claim input.
    pub fn input_region(&self) -> (region: Vec<Rect>)
        ensures
            region@ == self@.input_region(),
    {
        let mut region: Vec<Rect> = Vec::new();
        let mut i: usize = 0;
        while i < self.zones.len()
            invariant
                i <= self.zones.len(),
                region.len() == i,
                forall|j: int| 0 <= j < i ==> #[trigger] region@[j] == self.zones@[j].area(),
            decreases self.zones.len() - i,
        {
            region.push(self.zones[i].rect());
            i = i + 1;
        }
        proof {
            assert(region@ =~= self@.input_region());
        }
        region
    }

    /// Buffer pixels per logical pixel.
    fn scale(&self) -> (scale: i32)
        ensures
            scale == self@.scale(),
    {
        if self.output_scale > 1 {
            self.output_scale
        } else {
            1
        }
    }

    /// What a redraw of the present zones consists of; nothing before there is
    /// a surface.
    pub fn redraw(&self) -> (plan: Option<RedrawPlan>)
        requires
            self@.can_redraw(),
        ensures
            match plan {
                Some(plan) => {
                    &&& self@.compositor && self@.surface
                    &&& plan.region@ == self@.input_region()
                    &&& plan.buffer == self@.layout()
                    &&& plan.damage.0 == self@.damage().0
                    &&& plan.damage.1 == self@.damage().1
                },
                None => !(self@.compositor && self@.surface),
            },
    {
        if !self.compositor || !self.surface {
            return None;
        }
        let (w, h): (i32, i32) = self.output_size;
        let scale: i32 = self.scale();
        let buffer: Option<BufferLayout> = if w == 0 || h == 0 || !self.shm {
            None
        } else {
            Some(BufferLayout::new(w, h, scale))
        };
        Some(RedrawPlan { region: self.input_region(), buffer, damage: (w * scale, h * scale) })
    }

    /// Whether [`OverlayState::redraw`] may be called.
    pub fn redraw_in_range(&self) -> (ok: bool)
        ensures
            ok == self@.can_redraw(),
    {
        if !self.compositor || !self.surface {
            return true;
        }
        let (w, h): (i32, i32) = self.output_size;
        let scale: i32 = self.scale();
        if w != 0 && h != 0 && self.shm && !crate::frame::layout_in_range(w, h, scale) {
            return false;
        }
        crate::frame::product_in_range(w, scale) && crate::frame::product_in_range(h, scale)
    }

    /// Replaces the zones.
    pub fn set_zones(&mut self, zones: Vec<ActiveZone>)
        ensures
            final(self)@ == (Overlay { zones: zones@, ..old(self)@ }),
    {
        self.zones = zones;
    }
}

/// A 32-bit pattern read as a signed number.
fn to_signed(n: u32) -> (m: i32)
    ensures
        m == signed(n),
{
    if n < 0x8000_0000 {
        n as i32
    } else {
        -((0xffff_ffffu32 - n) as i32) - 1
    }
}

/// The overlay claims input only where it has a zone: before any widget has
/// been moved, every click falls through.
pub proof fn law_input_is_claimed_by_zones(state: Overlay, x: int, y: int)
    ensures
        (exists|i: int| 0 <= i < state.input_region().len() && (#[trigger] state.input_region()[i])
            .covers(x, y)) <==> (exists|i: int|
            0 <= i < state.zones.len() && (#[trigger] state.zones[i]).area().covers(x, y)),
        Overlay::initial().input_region().len() == 0,
{
    assert forall|i: int| 0 <= i < state.zones.len() implies #[trigger] state.input_region()[i]
        == state.zones[i].area() by {}
    if exists|i: int| 0 <= i < state.zones.len() && (#[trigger] state.zones[i]).area().covers(x, y) {
        let i = choose|i: int|
            0 <= i < state.zones.len() && (#[trigger] state.zones[i]).area().covers(x, y);
        assert(state.input_region()[i].covers(x, y));
    }
}

/// The first relocated widget that is shown under the pointer takes the click,
/// and it goes to the middle of that widget's original rectangle. Horizontal
/// positions are held against horizontal extents, vertical against vertical.
pub proof fn law_first_shown_widget_takes_click(zones: Seq<ActiveZone>, x: int, y: int, i: int)
    requires
        0 <= i < zones.len(),
        zones[i] is Relocated,
        zones[i]->visible_at.x <= x < zones[i]->visible_at.x + zones[i]->visible_at.w,
        zones[i]->visible_at.y <= y < zones[i]->visible_at.y + zones[i]->visible_at.h,
        forall|j: int|
            0 <= j < i && (#[trigger] zones[j]) is Relocated ==> !(zones[j]->visible_at.x <= x
                < zones[j]->visible_at.x + zones[j]->visible_at.w && zones[j]->visible_at.y <= y
                < zones[j]->visible_at.y + zones[j]->visible_at.h),
    ensures
        ({
            let to = zones[i]->forward_to;
            &&& click_target(zones, x, y) matches Some(point)
            &&& to.w >= 0 ==> point.0 == to.x + to.w as int / 2
            &&& to.h >= 0 ==> point.1 == to.y + to.h as int / 2
            &&& to.w < 0 ==> point.0 == to.x - (-to.w) / 2
            &&& to.h < 0 ==> point.1 == to.y - (-to.h) / 2
        }),
    decreases i,
{
    if i > 0 {
        let rest = zones.drop_first();
        assert(rest[i - 1] == zones[i]);
        assert forall|j: int| 0 <= j < i - 1 && (#[trigger] rest[j]) is Relocated implies !(
        rest[j]->visible_at.x <= x < rest[j]->visible_at.x + rest[j]->visible_at.w
            && rest[j]->visible_at.y <= y < rest[j]->visible_at.y + rest[j]->visible_at.h) by {
            assert(rest[j] == zones[j + 1]);
        }
        assert(zones[0] is Relocated ==> !zones[0]->visible_at.covers(x, y));
        law_first_shown_widget_takes_click(rest, x, y, i - 1);
    }
}

/// A press is answered where the pointer was last moved to: the first relocated
/// widget shown there gets the click, delivered to the middle of its original
/// rectangle.
pub proof fn law_press_lands_where_pointer_moved(
    state: Overlay,
    x: i32,
    y: i32,
    i: int,
    action: OverlayAction,
)
    requires
        state.after(OverlayEvent::Motion { x, y }).answers(
            OverlayEvent::Button { pressed: true },
            action,
        ),
        0 <= i < state.zones.len(),
        state.zones[i] is Relocated,
        state.zones[i]->visible_at.x <= x < state.zones[i]->visible_at.x
            + state.zones[i]->visible_at.w,
        state.zones[i]->visible_at.y <= y < state.zones[i]->visible_at.y
            + state.zones[i]->visible_at.h,
        forall|j: int|
            0 <= j < i && (#[trigger] state.zones[j]) is Relocated ==> !(
            state.zones[j]->visible_at.x <= x < state.zones[j]->visible_at.x
                + state.zones[j]->visible_at.w && state.zones[j]->visible_at.y <= y
                < state.zones[j]->visible_at.y + state.zones[j]->visible_at.h),
    ensures
        ({
            let to = state.zones[i]->forward_to;
            &&& action matches OverlayAction::Click { click }
            &&& to.w >= 0 ==> click.forward_to.0 == to.x + to.w as int / 2
            &&& to.h >= 0 ==> click.forward_to.1 == to.y + to.h as int / 2
            &&& to.w < 0 ==> click.forward_to.0 == to.x - (-to.w) / 2
            &&& to.h < 0 ==> click.forward_to.1 == to.y - (-to.h) / 2
        }),
{
    law_first_shown_widget_takes_click(state.zones, x as int, y as int, i);
}

/// A press where no relocated widget is shown under the pointer is swallowed, and
/// so is every release.
pub proof fn law_press_elsewhere_is_swallowed(
    state: Overlay,
    x: i32,
    y: i32,
    pressed: bool,
    action: OverlayAction,
)
    requires
        state.after(OverlayEvent::Motion { x, y }).answers(
            OverlayEvent::Button { pressed },
            action,
        ),
        pressed ==> forall|j: int|
            0 <= j < state.zones.len() && (#[trigger] state.zones[j]) is Relocated ==> !(
            state.zones[j]->visible_at.x <= x < state.zones[j]->visible_at.x
                + state.zones[j]->visible_at.w && state.zones[j]->visible_at.y <= y
                < state.zones[j]->visible_at.y + state.zones[j]->visible_at.h),
    ensures
        action is Nothing,
{
    if pressed {
        law_stale_click_is_swallowed(state.zones, x as int, y as int);
    }
}

/// While every rectangle's far edges are 32-bit coordinates, any click can be
/// resolved and any event handled.
pub proof fn law_representable_zones_are_usable(state: Overlay, event: OverlayEvent, x: int, y: int)
    requires
        forall|j: int|
            0 <= j < state.zones.len() && (#[trigger] state.zones[j]) is Relocated ==> {
                let (at, to) = (state.zones[j]->visible_at, state.zones[j]->forward_to);
                &&& -0x8000_0000 <= at.x + at.w <= 0x7fff_ffff
                &&& -0x8000_0000 <= at.y + at.h <= 0x7fff_ffff
                &&& -0x8000_0000 <= to.x + to.w <= 0x7fff_ffff
                &&& -0x8000_0000 <= to.y + to.h <= 0x7fff_ffff
            },
    ensures
        can_resolve(state.zones, x, y),
        state.can_handle(event),
{
    lemma_can_resolve(state.zones, x, y);
    lemma_can_resolve(
        state.zones,
        state.last_pointer_pos.0 as int,
        state.last_pointer_pos.1 as int,
    );
}

proof fn lemma_can_resolve(zones: Seq<ActiveZone>, x: int, y: int)
    requires
        forall|j: int|
            0 <= j < zones.len() && (#[trigger] zones[j]) is Relocated ==> {
                let (at, to) = (zones[j]->visible_at, zones[j]->forward_to);
                &&& -0x8000_0000 <= at.x + at.w <= 0x7fff_ffff
                &&& -0x8000_0000 <= at.y + at.h <= 0x7fff_ffff
                &&& -0x8000_0000 <= to.x + to.w <= 0x7fff_ffff
                &&& -0x8000_0000 <= to.y + to.h <= 0x7fff_ffff
            },
    ensures
        can_resolve(zones, x, y),
    decreases zones.len(),
{
    if zones.len() > 0 {
        let rest = zones.drop_first();
        assert forall|j: int| 0 <= j < rest.len() && (#[trigger] rest[j]) is Relocated implies {
            let (at, to) = (rest[j]->visible_at, rest[j]->forward_to);
            &&& -0x8000_0000 <= at.x + at.w <= 0x7fff_ffff
            &&& -0x8000_0000 <= at.y + at.h <= 0x7fff_ffff
            &&& -0x8000_0000 <= to.x + to.w <= 0x7fff_ffff
            &&& -0x8000_0000 <= to.y + to.h <= 0x7fff_ffff
        } by {
            assert(rest[j] == zones[j + 1]);
        }
        lemma_can_resolve(rest, x, y);
        let first = zones[0];
        if first is Relocated {
            crate::types::law_representable_rect_is_usable(first->visible_at, x, y);
            crate::types::law_representable_rect_is_usable(first->forward_to, x, y);
        }
    }
}

/// Each zone claims one rectangle of the input region: a mask its own, a
/// relocated widget the one it is shown at.
pub proof fn law_zones_claim_their_rectangles(state: Overlay, i: int)
    requires
        0 <= i < state.zones.len(),
    ensures
        state.input_region().len() == state.zones.len(),
        state.zones[i] matches ActiveZone::Mask(rect) ==> state.input_region()[i] == rect,
        state.zones[i] matches ActiveZone::Relocated { visible_at, .. }
            ==> state.input_region()[i] == visible_at,
{
}

/// No event changes the zones or takes away what the overlay has; and each kind
/// of event changes only what it is about.
pub proof fn law_events_keep_the_rest(state: Overlay, event: OverlayEvent)
    ensures
        ({
            let after = state.after(event);
            &&& after.zones == state.zones
            &&& after.surface == state.surface
            &&& state.compositor ==> after.compositor
            &&& state.shm ==> after.shm
            &&& state.layer_shell ==> after.layer_shell
            &&& state.seat ==> after.seat
            &&& state.output ==> after.output
            &&& state.pointer ==> after.pointer
            &&& !(event is Global) ==> after.compositor == state.compositor && after.shm
                == state.shm && after.layer_shell == state.layer_shell && after.seat == state.seat
                && after.output == state.output
            &&& !(event is Capabilities) ==> after.pointer == state.pointer
            &&& !(event is Motion) ==> after.last_pointer_pos == state.last_pointer_pos
            &&& !(event is Scale) ==> after.output_scale == state.output_scale
            &&& !(event is Configure) ==> after.output_size == state.output_size
                && after.configured == state.configured
        }),
{
}

/// The size of the surface is the one that was last announced, width and height
/// in this order; one too large for a signed number wraps around.
pub proof fn law_size_is_the_announced_one(state: Overlay, width: u32, height: u32)
    ensures
        ({
            let after = state.after(OverlayEvent::Configure { width, height });
            &&& after.configured
            &&& width <= 0x7fff_ffff ==> after.output_size.0 == width
            &&& height <= 0x7fff_ffff ==> after.output_size.1 == height
            &&& width > 0x7fff_ffff ==> after.output_size.0 == width - 0x1_0000_0000
            &&& height > 0x7fff_ffff ==> after.output_size.1 == height - 0x1_0000_0000
        }),
{
}

/// A surface's new size is always acknowledged, and its end always reported.
pub proof fn law_surface_events_are_answered(
    state: Overlay,
    width: u32,
    height: u32,
    to_size: OverlayAction,
    to_end: OverlayAction,
)
    requires
        state.answers(OverlayEvent::Configure { width, height }, to_size),
        state.answers(OverlayEvent::Closed, to_end),
    ensures
        to_size is AckConfigure,
        to_end is ReportClosed,
{
}

/// The scale is the one that was last announced, and at least one.
pub proof fn law_scale_is_the_announced_one(state: Overlay, factor: i32)
    ensures
        factor >= 1 ==> state.after(OverlayEvent::Scale { factor }).scale() == factor,
        factor < 1 ==> state.after(OverlayEvent::Scale { factor }).scale() == 1,
        state.scale() >= 1,
{
}

/// The pointer is asked for when the seat first has one, and never again.
pub proof fn law_pointer_is_asked_for_once(
    state: Overlay,
    pointer: bool,
    again: bool,
    first: OverlayAction,
    second: OverlayAction,
)
    requires
        state.answers(OverlayEvent::Capabilities { pointer }, first),
        state.after(OverlayEvent::Capabilities { pointer }).answers(
            OverlayEvent::Capabilities { pointer: again },
            second,
        ),
    ensures
        first is GetPointer <==> pointer && !state.pointer,
        first is GetPointer || first is Nothing,
        first is GetPointer ==> second is Nothing,
        state.after(OverlayEvent::Capabilities { pointer }).pointer <==> state.pointer || pointer,
{
}

/// Every object that the overlay needs is bound when it is offered, at a version
/// that both sides speak, and is then there; a second output and anything else
/// is left alone.
pub proof fn law_offered_objects_are_bound(
    state: Overlay,
    interface: String,
    version: u32,
    action: OverlayAction,
)
    requires
        state.answers(OverlayEvent::Global { interface, version }, action),
    ensures
        ({
            let after = state.after(OverlayEvent::Global { interface, version });
            let name = interface@;
            &&& name == "wl_compositor"@ ==> after == (Overlay { compositor: true, ..state })
                && action == (OverlayAction::Bind {
                global: Global::Compositor,
                version: if version <= 4 { version } else { 4 },
            })
            &&& name == "wl_shm"@ ==> after == (Overlay { shm: true, ..state }) && action == (
            OverlayAction::Bind {
                global: Global::Shm,
                version: if version <= 1 { version } else { 1 },
            })
            &&& name == "wl_seat"@ ==> after == (Overlay { seat: true, ..state }) && action == (
            OverlayAction::Bind {
                global: Global::Seat,
                version: if version <= 7 { version } else { 7 },
            })
            &&& name == "zwlr_layer_shell_v1"@ ==> after == (Overlay {
                layer_shell: true,
                ..state
            }) && action == (OverlayAction::Bind {
                global: Global::LayerShell,
                version: if version <= 4 { version } else { 4 },
            })
            &&& name == "wl_output"@ && !state.output ==> after == (Overlay {
                output: true,
                ..state
            }) && action == (OverlayAction::Bind {
                global: Global::Output,
                version: if version <= 4 { version } else { 4 },
            })
            &&& name == "wl_output"@ && state.output ==> after == state && action is Nothing
            &&& name != "wl_compositor"@ && name != "wl_shm"@ && name != "wl_seat"@ && name
                != "wl_output"@ && name != "zwlr_layer_shell_v1"@ ==> after == state
                && action is Nothing
        }),
{
    reveal_strlit("wl_compositor");
    reveal_strlit("wl_shm");
    reveal_strlit("wl_seat");
    reveal_strlit("wl_output");
    reveal_strlit("zwlr_layer_shell_v1");
    assert("wl_compositor"@.len() == 13 && "wl_shm"@.len() == 6 && "wl_seat"@.len() == 7
        && "wl_output"@.len() == 9 && "zwlr_layer_shell_v1"@.len() == 19);
}

/// A frame has four bytes for every physical pixel of the output, and a redraw
/// damages all of it. There is one as soon as the output has a size and there is
/// shared memory.
pub proof fn law_frame_covers_output(state: Overlay)
    requires
        state.can_redraw(),
        state.compositor,
        state.surface,
    ensures
        state.layout() is Some <==> state.output_size.0 != 0 && state.output_size.1 != 0
            && state.shm,
        state.layout() matches Some(layout) ==> {
            &&& layout.scale == state.scale()
            &&& layout.width == state.output_size.0 * state.scale()
            &&& layout.height == state.output_size.1 * state.scale()
            &&& layout.stride == 4 * layout.width
            &&& layout.size == layout.stride * layout.height
            &&& state.damage().0 == layout.width
            &&& state.damage().1 == layout.height
        },
{
}

/// An output whose frame has a 32-bit size can be redrawn.
pub proof fn law_representable_output_is_drawable(state: Overlay)
    requires
        state.output_size.0 >= 0,
        state.output_size.1 >= 0,
        state.output_size.0 * state.scale() * 4 <= 0x7fff_ffff,
        state.output_size.1 * state.scale() <= 0x7fff_ffff,
        state.output_size.0 * state.scale() * 4 * (state.output_size.1 * state.scale())
            <= 0x7fff_ffff,
    ensures
        state.can_redraw(),
{
    let w = state.output_size.0 * state.scale();
    let h = state.output_size.1 * state.scale();
    assert(0 <= w && 0 <= h) by (nonlinear_arith)
        requires
            w == state.output_size.0 * state.scale(),
            h == state.output_size.1 * state.scale(),
            state.output_size.0 >= 0,
            state.output_size.1 >= 0,
            state.scale() >= 1,
    ;
    assert(0 <= w * 4 * h) by (nonlinear_arith)
        requires
            0 <= w,
            0 <= h,
    ;
}

} // verus!
