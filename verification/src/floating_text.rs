//! Floating text: short words that rise from where something happened.
use vstd::prelude::*;
use crate::units::{valid_delta, COORD_MAX, DIR_ONE};
use crate::math::{Vec2, clamp_coord, add_coord, travel, travel_along};
use crate::buildings::{ouch_text, ouch_string, OUCH_COUNT};

verus! {

/// How far from a blast, along each axis, the words of a building that it
/// hit may appear.
pub const OUCH_SCATTER: i64 = 30_000;

/// How long floating text is shown.
pub const FLOATING_TEXT_LIFETIME: i64 = 2_000_000;

/// How fast floating text rises, in length steps per second.
pub const FLOATING_TEXT_MOVE_SPEED: i64 = 1_500;

/// How far behind the text, to the right and downwards, its shadow lies.
pub const FLOATING_TEXT_SHADOW_OFFSET: i64 = 2_000;

/// A request to show text at a place: the text, then the place's two
/// coordinates.
#[derive(Debug)]
pub struct NewText(pub String, pub i64, pub i64);

/// The character of the decimal digit `d`.
pub open spec fn digit_char(d: int) -> char {
    if d == 0 {
        '0'
    } else if d == 1 {
        '1'
    } else if d == 2 {
        '2'
    } else if d == 3 {
        '3'
    } else if d == 4 {
        '4'
    } else if d == 5 {
        '5'
    } else if d == 6 {
        '6'
    } else if d == 7 {
        '7'
    } else if d == 8 {
        '8'
    } else {
        '9'
    }
}

/// The decimal notation of `n`, without leading zeros.
pub open spec fn decimal(n: nat) -> Seq<char>
    decreases n,
{
    if n < 10 {
        seq![digit_char(n as int)]
    } else {
        decimal(n / 10).push(digit_char((n % 10) as int))
    }
}

/// The text that announces `level`: the word "level", a space, and the number
/// in decimal notation.
pub open spec fn level_label(level: usize) -> Seq<char> {
    "level "@ + decimal(level as nat)
}

/// Formats the announcement of a level with std's `format!`. Trusted: that
/// `{}` writes an integer in decimal notation without leading zeros, after
/// the literal text before it.
#[verifier::external_body]
fn format_level(level: usize) -> (s: String)
    ensures
        s@ == level_label(level),
{
    format!("level {}", level)
}

/// The request that announces `level`, in the middle of the field.
pub fn level_up_text(level: usize) -> (t: NewText)
    ensures
        t.0@ == level_label(level),
        t.1 == 0,
        t.2 == 0,
{
    NewText(format_level(level), 0, 0)
}

/// The words of a building hit by a blast at `impact`, scattered by `dx` and
/// `dy`, chosen by `seed`.
pub fn ouch_text_at(impact: Vec2, dx: i64, dy: i64, seed: usize) -> (t: NewText)
    requires
        impact.in_world(),
        -OUCH_SCATTER <= dx <= OUCH_SCATTER,
        -OUCH_SCATTER <= dy <= OUCH_SCATTER,
    ensures
        t.0@ == ouch_text((seed % OUCH_COUNT) as int),
        t.1 == impact.x + dx,
        t.2 == impact.y + dy,
{
    NewText(ouch_string(seed), impact.x + dx, impact.y + dy)
}

/// Whether `t` is what a building says when a blast at `impact` hits it: one
/// of its sayings, no further from the blast than the scatter.
pub open spec fn is_ouch_near(t: NewText, impact: Vec2) -> bool {
    &&& exists|i: int| 0 <= i < OUCH_COUNT && t.0@ == #[trigger] ouch_text(i)
    &&& impact.x - OUCH_SCATTER <= t.1 <= impact.x + OUCH_SCATTER
    &&& impact.y - OUCH_SCATTER <= t.2 <= impact.y + OUCH_SCATTER
}

/// How much longer a floating text is shown.
#[derive(Clone, Copy, Debug, PartialEq, Eq, Structural)]
pub struct FloatingText(pub i64);

/// A floating text on the field: which request it shows, whether it is the
/// text itself or its shadow, where it is, and how long it lasts.
#[derive(Clone, Copy, Debug, PartialEq, Eq, Structural)]
pub struct FloatingLabel {
    pub request: usize,
    pub shadow: bool,
    pub position: Vec2,
    pub floating: FloatingText,
}

impl FloatingLabel {
    /// The label is in the world and its time is a time.
    pub open spec fn wf(self) -> bool {
        self.position.in_world() && 0 <= self.floating.0 <= FLOATING_TEXT_LIFETIME
    }

    /// Whether the label is gone after `dt` more microseconds.
    pub open spec fn fades(self, dt: int) -> bool {
        self.floating.0 - dt <= 0
    }

    /// The label after `dt` more microseconds, if it is not gone: older, and
    /// risen.
    pub open spec fn risen(self, dt: int) -> FloatingLabel {
        FloatingLabel {
            position: Vec2 {
                x: self.position.x,
                y: clamp_coord(
                    self.position.y + travel(DIR_ONE as int, FLOATING_TEXT_MOVE_SPEED as int, dt),
                ) as i64,
            },
            floating: FloatingText((self.floating.0 - dt) as i64),
            ..self
        }
    }

    /// One tick of one label: the label afterwards, or nothing when its time
    /// is up.
    pub fn update(self, dt: i64) -> (r: Option<FloatingLabel>)
        requires
            self.wf(),
            valid_delta(dt as int),
        ensures
            r.is_none() == self.fades(dt as int),
            r.is_some() ==> r.unwrap() == self.risen(dt as int) && r.unwrap().wf(),
    {
        let left: i64 = self.floating.0 - dt;
        if left <= 0 {
            None
        } else {
            let rise: i64 = travel_along(DIR_ONE, FLOATING_TEXT_MOVE_SPEED, dt);
            Some(
                FloatingLabel {
                    request: self.request,
                    shadow: self.shadow,
                    position: Vec2 { x: self.position.x, y: add_coord(self.position.y, rise) },
                    floating: FloatingText(left),
                },
            )
        }
    }
}

/// The text that shows the request with the given number at `(x, y)`.
pub open spec fn label_of(request: int, x: int, y: int) -> FloatingLabel {
    FloatingLabel {
        request: request as usize,
        shadow: false,
        position: Vec2 { x: clamp_coord(x) as i64, y: clamp_coord(y) as i64 },
        floating: FloatingText(FLOATING_TEXT_LIFETIME),
    }
}

/// The shadow of the text that shows the request with the given number at
/// `(x, y)`: a little to the right and below.
pub open spec fn shadow_of(request: int, x: int, y: int) -> FloatingLabel {
    FloatingLabel {
        request: request as usize,
        shadow: true,
        position: Vec2 {
            x: clamp_coord(clamp_coord(x) + FLOATING_TEXT_SHADOW_OFFSET) as i64,
            y: clamp_coord(clamp_coord(y) - FLOATING_TEXT_SHADOW_OFFSET) as i64,
        },
        floating: FloatingText(FLOATING_TEXT_LIFETIME),
    }
}

/// The labels that show `events`: for each request, in order, the text and
/// then its shadow.
pub open spec fn labels_of(events: Seq<NewText>) -> Seq<FloatingLabel> {
    Seq::new(
        2 * events.len(),
        |k: int|
            if k % 2 == 0 {
                label_of(k / 2, events[k / 2].1 as int, events[k / 2].2 as int)
            } else {
                shadow_of(k / 2, events[k / 2].1 as int, events[k / 2].2 as int)
            },
    )
}

/// Whether all of `labels` are well formed.
pub open spec fn labels_wf(labels: Seq<FloatingLabel>) -> bool {
    forall|i: int| 0 <= i < labels.len() ==> (#[trigger] labels[i]).wf()
}

/// Holds a coordinate inside the world.
fn clamp_to_world(v: i64) -> (r: i64)
    ensures
        r == clamp_coord(v as int),
{
    if v < -COORD_MAX {
        -COORD_MAX
    } else if v > COORD_MAX {
        COORD_MAX
    } else {
        v
    }
}

/// Turns the text requests of a tick into labels on the field: each request
/// gets its text and, behind it, the text's shadow.
pub fn handle_new_text_event(events: &Vec<NewText>) -> (labels: Vec<FloatingLabel>)
    requires
        2 * events.len() <= usize::MAX,
    ensures
        labels@ == labels_of(events@),
        labels_wf(labels@),
{
    let mut labels: Vec<FloatingLabel> = Vec::new();
    let mut i: usize = 0;
    while i < events.len()
        invariant
            i <= events.len(),
            2 * events.len() <= usize::MAX,
            labels.len() == 2 * i,
            forall|k: int| 0 <= k < 2 * i ==> #[trigger] labels[k] == labels_of(events@)[k],
            labels_wf(labels@),
        decreases events.len() - i,
    {
        let x: i64 = clamp_to_world(events[i].1);
        let y: i64 = clamp_to_world(events[i].2);
        let text = FloatingLabel {
            request: i,
            shadow: false,
            position: Vec2 { x, y },
            floating: FloatingText(FLOATING_TEXT_LIFETIME),
        };
        let shadow = FloatingLabel {
            request: i,
            shadow: true,
            position: Vec2 {
                x: add_coord(x, FLOATING_TEXT_SHADOW_OFFSET),
                y: add_coord(y, -FLOATING_TEXT_SHADOW_OFFSET),
            },
            floating: FloatingText(FLOATING_TEXT_LIFETIME),
        };
        assert(text == label_of(i as int, events[i as int].1 as int, events[i as int].2 as int));
        assert(shadow == shadow_of(i as int, events[i as int].1 as int, events[i as int].2 as int));
        labels.push(text);
        labels.push(shadow);
        i = i + 1;
    }
    assert(labels@ =~= labels_of(events@));
    labels
}

/// The predicate of the labels that last longer than `dt` microseconds.
pub open spec fn lasting(dt: int) -> spec_fn(FloatingLabel) -> bool {
    |l: FloatingLabel| !l.fades(dt)
}

/// The labels after a tick of `dt` microseconds: those whose time is up are
/// gone, the others are older and have risen.
pub open spec fn float_all(labels: Seq<FloatingLabel>, dt: int) -> Seq<FloatingLabel> {
    labels.filter(lasting(dt)).map_values(|l: FloatingLabel| l.risen(dt))
}

/// One tick of the floating text: every label ages by `dt` microseconds; one
/// whose time is up is removed, the others rise.
pub fn update_floating_text(labels: &Vec<FloatingLabel>, dt: i64) -> (out: Vec<FloatingLabel>)
    requires
        labels_wf(labels@),
        valid_delta(dt as int),
    ensures
        out@ == float_all(labels@, dt as int),
        labels_wf(out@),
{
    let mut out: Vec<FloatingLabel> = Vec::new();
    let mut i: usize = 0;
    proof {
        reveal(Seq::filter);
        assert(labels@.take(0) =~= Seq::<FloatingLabel>::empty());
        assert(out@ =~= float_all(labels@.take(0), dt as int));
    }
    while i < labels.len()
        invariant
            i <= labels.len(),
            labels_wf(labels@),
            valid_delta(dt as int),
            out@ == float_all(labels@.take(i as int), dt as int),
            labels_wf(out@),
        decreases labels.len() - i,
    {
        let next: Option<FloatingLabel> = labels[i].update(dt);
        proof {
            reveal(Seq::filter);
            let before = labels@.take(i as int);
            let now = labels@.take(i + 1);
            assert(now.drop_last() =~= before);
            assert(now.last() == labels[i as int]);
            if next.is_some() {
                assert(now.filter(lasting(dt as int)) == before.filter(lasting(dt as int)).push(
                    labels[i as int],
                ));
                assert(float_all(now, dt as int) =~= float_all(before, dt as int).push(
                    labels[i as int].risen(dt as int),
                ));
            } else {
                assert(now.filter(lasting(dt as int)) == before.filter(lasting(dt as int)));
            }
        }
        match next {
            Some(l) => {
                out.push(l);
            },
            None => {},
        }
        i = i + 1;
    }
    assert(labels@.take(labels.len() as int) =~= labels@);
    out
}

} // verus!
