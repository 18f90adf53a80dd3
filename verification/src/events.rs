//! What the timeline does on each event of its window, and between frames.

use crate::record::Span;
use crate::timeline::{
    fits_i32, saturating_add, saturating_difference, saturating_sub, saturating_sum, App, Area,
};
use vstd::prelude::*;

verus! {

/// The length of one frame in nanoseconds.
pub const FRAME: u32 = 33_333_333;

/// The keys that the timeline knows, and any other.
#[derive(Clone, Copy, Debug, PartialEq, Eq, Structural)]
pub enum Key {
    /// zoom out
    Q,
    /// zoom in
    W,
    /// zoom to fit
    E,
    /// scroll right
    S,
    /// scroll left
    A,
    /// scroll back to the start
    D,
    Other,
}

/// An event of the window.
#[derive(Clone, Copy, Debug, PartialEq, Eq, Structural)]
pub enum Event {
    Quit,
    KeyDown(Key),
    MouseButtonDown { x: i32, y: i32 },
    MouseButtonUp,
    /// The window has the given width now.
    Resized(i32),
    Other,
}

/// What the events have left behind: how many keys went down in the run of
/// frames with a key down that is going on, and in that run up to the frame
/// before; and the place and span of the label, which is shown while both
/// coordinates are positive.
#[derive(Clone, Copy, Debug, PartialEq, Eq, Structural)]
pub struct Controls {
    pub prev_keycount: i32,
    pub keycount: i32,
    pub draw_x: i32,
    pub draw_y: i32,
    pub draw_data: Span,
}

/// What an event comes to besides the new state: whether the viewer ends, and
/// the spans found under the pointer, in the order of their areas.
#[derive(Debug)]
pub struct Reaction {
    pub quit: bool,
    pub hits: Vec<Span>,
}

/// The state after an event, and what the event came to.
pub struct Turn {
    pub app: App,
    pub controls: Controls,
    pub quit: bool,
    pub hits: Seq<Span>,
}

/// `a + b`, kept within the `u64` range.
pub open spec fn saturating_sum_u64(a: u64, b: u64) -> u64 {
    if a + b > u64::MAX {
        u64::MAX
    } else {
        (a + b) as u64
    }
}

/// `a - b`, or zero where `b` is more than `a`.
pub open spec fn saturating_difference_u64(a: u64, b: u64) -> u64 {
    if a < b {
        0
    } else {
        (a - b) as u64
    }
}

/// The spans of the areas that hold the point `(x, y)` strictly inside, in the
/// order of the areas. `None` where `y` is negative and the point lies between
/// the left and right edge of some area.
pub open spec fn spec_hits(zones: Seq<Area>, x: i32, y: i32) -> Option<Seq<Span>>
    decreases zones.len(),
{
    if zones.len() == 0 {
        Some(Seq::empty())
    } else {
        let zone = zones.last();
        match spec_hits(zones.drop_last(), x, y) {
            None => None,
            Some(hits) => if zone.x_start < x && zone.x_stop > x {
                if y < 0 {
                    None
                } else if zone.y_start < y && zone.y_stop > y {
                    Some(hits.push(zone.tag_data))
                } else {
                    Some(hits)
                }
            } else {
                Some(hits)
            },
        }
    }
}

/// Where the search fails on a part of the areas, it fails on all of them.
pub proof fn lemma_hits_fail_early(zones: Seq<Area>, x: i32, y: i32, part: int)
    requires
        0 <= part <= zones.len(),
        spec_hits(zones.take(part), x, y) is None,
    ensures
        spec_hits(zones, x, y) is None,
    decreases zones.len(),
{
    if part < zones.len() {
        assert(zones.drop_last().take(part) =~= zones.take(part));
        lemma_hits_fail_early(zones.drop_last(), x, y, part);
    } else {
        assert(zones.take(part) =~= zones);
    }
}

/// The spans of the areas that hold the point `(x, y)` strictly inside.
pub fn hits(zones: &Vec<Area>, x: i32, y: i32) -> (found: Option<Vec<Span>>)
    ensures
        match found {
            Some(found) => spec_hits(zones@, x, y) == Some(found@),
            None => spec_hits(zones@, x, y) is None,
        },
{
    let n = zones.len();
    let mut found: Vec<Span> = Vec::new();
    let mut i: usize = 0;
    while i < n
        invariant
            n == zones@.len(),
            i <= n,
            spec_hits(zones@.take(i as int), x, y) == Some(found@),
        decreases n - i,
    {
        let zone = zones[i];
        proof {
            let longer = zones@.take(i + 1);
            assert(longer.drop_last() =~= zones@.take(i as int));
        }
        if zone.x_start < x && zone.x_stop > x {
            if y < 0 {
                proof {
                    lemma_hits_fail_early(zones@, x, y, i + 1);
                }
                return None;
            }
            if zone.y_start < y as u64 && zone.y_stop > y as u64 {
                found.push(zone.tag_data);
            }
        }
        i += 1;
    }
    assert(zones@.take(n as int) =~= zones@);
    Some(found)
}

impl Controls {
    /// The controls at the start: no key down, no label.
    pub fn new() -> (controls: Controls)
        ensures
            controls == (Controls {
                prev_keycount: 0,
                keycount: 0,
                draw_x: 0,
                draw_y: 0,
                draw_data: Span { tag: 0, start: 0, stop: 0 },
            }),
    {
        Controls {
            prev_keycount: 0,
            keycount: 0,
            draw_x: 0,
            draw_y: 0,
            draw_data: Span { tag: 0, start: 0, stop: 0 },
        }
    }

    /// The controls after the events of one frame were handled: the count of
    /// keys goes back to zero where the frame brought no key, and is kept for the
    /// next frame to compare with.
    pub open spec fn spec_settle(self) -> Controls {
        let keycount = if self.prev_keycount == self.keycount {
            0
        } else {
            self.keycount
        };
        Controls { prev_keycount: keycount, keycount, ..self }
    }

    /// Closes the handling of the events of one frame.
    pub fn settle(&mut self)
        ensures
            *final(self) == old(self).spec_settle(),
    {
        if self.prev_keycount == self.keycount {
            self.keycount = 0;
        }
        self.prev_keycount = self.keycount;
    }

    /// The label is shown: both its coordinates are positive.
    pub open spec fn spec_shows_label(&self) -> bool {
        self.draw_x > 0 && self.draw_y > 0
    }

    /// The label is shown.
    #[verifier::when_used_as_spec(spec_shows_label)]
    pub fn shows_label(&self) -> (shown: bool)
        ensures
            shown == self.spec_shows_label(),
    {
        self.draw_x > 0 && self.draw_y > 0
    }
}

/// The state after `event`, and what the event came to. A key counts on top of
/// those that went down before it in the same run, and zooms or scrolls by more
/// the longer the run: `Q` and `W` change the scale by the square of the count,
/// `S` and `A` the scroll by the count, each kept within its range; `E` and `D`
/// go back to the fitting scale and to the start. A button down puts the label
/// at the pointer where an area holds it, with the span of the last such area,
/// and a button up takes the label away. `None` where one of the numbers needed
/// does not fit its type, and for `E` in a window without width.
pub open spec fn spec_react(app: App, controls: Controls, event: Event) -> Option<Turn> {
    match event {
        Event::Quit => Some(Turn { app, controls, quit: true, hits: Seq::empty() }),
        Event::KeyDown(key) => {
            let count = controls.keycount + 1;
            let pressed = Controls { keycount: count as i32, ..controls };
            let calm = Turn { app, controls: pressed, quit: false, hits: Seq::empty() };
            if !fits_i32(count) {
                None
            } else {
                match key {
                    Key::Q => if !fits_i32(count * count) {
                        None
                    } else {
                        Some(
                            Turn {
                                app: App {
                                    scale: saturating_sum_u64(app.scale, (count * count) as u64),
                                    ..app
                                },
                                ..calm
                            },
                        )
                    },
                    Key::W => if !fits_i32(count * count) {
                        None
                    } else {
                        Some(
                            Turn {
                                app: App {
                                    scale: saturating_difference_u64(
                                        app.scale,
                                        (count * count) as u64,
                                    ),
                                    ..app
                                },
                                ..calm
                            },
                        )
                    },
                    Key::E => match App::spec_fitting_scale(
                        app.min_start,
                        app.max_stop,
                        app.window_width,
                    ) {
                        None => None,
                        Some(scale) => Some(Turn { app: App { scale, ..app }, ..calm }),
                    },
                    Key::S => Some(
                        Turn {
                            app: App { scroll: saturating_sum(app.scroll, count as i32), ..app },
                            ..calm
                        },
                    ),
                    Key::A => Some(
                        Turn {
                            app: App {
                                scroll: saturating_difference(app.scroll, count as i32),
                                ..app
                            },
                            ..calm
                        },
                    ),
                    Key::D => Some(Turn { app: App { scroll: 0, ..app }, ..calm }),
                    Key::Other => Some(calm),
                }
            }
        },
        Event::MouseButtonDown { x, y } => match spec_hits(app.draw_zones@, x, y) {
            None => None,
            Some(hits) => Some(
                Turn {
                    app,
                    controls: if hits.len() > 0 {
                        Controls { draw_x: x, draw_y: y, draw_data: hits.last(), ..controls }
                    } else {
                        controls
                    },
                    quit: false,
                    hits,
                },
            ),
        },
        Event::MouseButtonUp => Some(
            Turn {
                app,
                controls: Controls { draw_x: 0, draw_y: 0, ..controls },
                quit: false,
                hits: Seq::empty(),
            },
        ),
        Event::Resized(width) => Some(
            Turn {
                app: App { window_width: width as u32, ..app },
                controls,
                quit: false,
                hits: Seq::empty(),
            },
        ),
        Event::Other => Some(Turn { app, controls, quit: false, hits: Seq::empty() }),
    }
}

/// Handles one event: brings `app` and `controls` to the state after it and
/// says what it came to. Where that fails, nothing changes.
pub fn react(app: &mut App, controls: &mut Controls, event: Event) -> (reaction: Option<Reaction>)
    ensures
        match spec_react(*old(app), *old(controls), event) {
            Some(turn) => {
                &&& *final(app) == turn.app
                &&& *final(controls) == turn.controls
                &&& reaction matches Some(reaction)
                &&& reaction.quit == turn.quit
                &&& reaction.hits@ == turn.hits
            },
            None => reaction is None && *final(app) == *old(app) && *final(controls) == *old(
                controls,
            ),
        },
{
    match event {
        Event::Quit => Some(Reaction { quit: true, hits: Vec::new() }),
        Event::KeyDown(key) => {
            let count = match controls.keycount.checked_add(1) {
                Some(count) => count,
                None => return None,
            };
            match key {
                Key::Q => {
                    let step = match count.checked_mul(count) {
                        Some(step) => step,
                        None => return None,
                    };
                    assert(step >= 0) by (nonlinear_arith)
                        requires
                            step == count * count,
                    ;
                    app.scale = app.scale.saturating_add(step as u64);
                },
                Key::W => {
                    let step = match count.checked_mul(count) {
                        Some(step) => step,
                        None => return None,
                    };
                    assert(step >= 0) by (nonlinear_arith)
                        requires
                            step == count * count,
                    ;
                    app.scale = app.scale.saturating_sub(step as u64);
                },
                Key::E => {
                    let scale = match App::fitting_scale(
                        app.min_start,
                        app.max_stop,
                        app.window_width,
                    ) {
                        Some(scale) => scale,
                        None => return None,
                    };
                    app.scale = scale;
                },
                Key::S => {
                    app.scroll = saturating_add(app.scroll, count);
                },
                Key::A => {
                    app.scroll = saturating_sub(app.scroll, count);
                },
                Key::D => {
                    app.scroll = 0;
                },
                Key::Other => {},
            }
            controls.keycount = count;
            Some(Reaction { quit: false, hits: Vec::new() })
        },
        Event::MouseButtonDown { x, y } => {
            let found = match hits(&app.draw_zones, x, y) {
                Some(found) => found,
                None => return None,
            };
            if found.len() > 0 {
                controls.draw_x = x;
                controls.draw_y = y;
                controls.draw_data = found[found.len() - 1];
            }
            Some(Reaction { quit: false, hits: found })
        },
        Event::MouseButtonUp => {
            controls.draw_x = 0;
            controls.draw_y = 0;
            Some(Reaction { quit: false, hits: Vec::new() })
        },
        Event::Resized(width) => {
            app.window_width = width as u32;
            Some(Reaction { quit: false, hits: Vec::new() })
        },
        Event::Other => Some(Reaction { quit: false, hits: Vec::new() }),
    }
}

/// The time to wait after a frame that took `elapsed` nanoseconds, so that
/// frames follow each other `FRAME` nanoseconds apart: what is left of `FRAME`,
/// or nothing where the frame took as long or longer.
pub fn pause(elapsed: u128) -> (nanos: u32)
    ensures
        nanos == if elapsed >= FRAME {
            0
        } else {
            FRAME - elapsed
        },
{
    if elapsed >= FRAME as u128 {
        0
    } else {
        FRAME - elapsed as u32
    }
}

} // verus!
