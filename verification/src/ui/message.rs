//! Notifications: short messages stacked in the top right corner, each
//! shown for a time of its own.
//!
//! Times are milliseconds on a clock that never runs backwards; the
//! caller reads the clock.

use vstd::prelude::*;
use vstd::string::*;
use crate::layout::Rect;

verus! {

/// Lines that a notification takes on the screen, its border included.
pub const TOAST_HEIGHT: u16 = 3;

/// Severity of a message. It decides the title and the background.
#[derive(Debug, Clone, Copy, PartialEq, Eq, Structural)]
pub enum MessageSeverity {
    /// Title "Info", white background.
    Info,
    /// Title "Warning", yellow background.
    Warning,
    /// Title "Error", red background.
    Error,
}

/// Background of a notification.
#[derive(Debug, Clone, Copy, PartialEq, Eq, Structural)]
pub enum ToastColor {
    White,
    Yellow,
    Red,
}

impl MessageSeverity {
    pub open spec fn spec_title(self) -> Seq<char> {
        match self {
            MessageSeverity::Error => "Error"@,
            MessageSeverity::Warning => "Warning"@,
            MessageSeverity::Info => "Info"@,
        }
    }

    /// The title of a notification of this severity.
    pub fn title(self) -> (title: &'static str)
        ensures
            title@ == self.spec_title(),
    {
        match self {
            MessageSeverity::Error => "Error",
            MessageSeverity::Warning => "Warning",
            MessageSeverity::Info => "Info",
        }
    }

    /// The background of a notification of this severity.
    pub fn color(self) -> (color: ToastColor)
        ensures
            color == match self {
                MessageSeverity::Error => ToastColor::Red,
                MessageSeverity::Warning => ToastColor::Yellow,
                MessageSeverity::Info => ToastColor::White,
            },
    {
        match self {
            MessageSeverity::Error => ToastColor::Red,
            MessageSeverity::Warning => ToastColor::Yellow,
            MessageSeverity::Info => ToastColor::White,
        }
    }
}

/// A message with its severity, the time it is shown for and the time it
/// was made at.
#[derive(Debug)]
pub struct Message {
    /// Text of the message.
    pub text: String,
    pub severity: MessageSeverity,
    /// How long the message is shown, in milliseconds.
    pub duration: u64,
    /// When the message was made.
    pub time: u64,
}

/// The messages on display, oldest first.
#[derive(Debug)]
pub struct Messages {
    pub messages: Vec<Message>,
}

/// Milliseconds from `time` to `now`; none where `now` is the earlier.
pub open spec fn elapsed(time: u64, now: u64) -> int {
    if now >= time { now - time } else { 0 }
}

impl Message {
    /// A message made at `now`. Hand it to `Messages::add` to show it.
    pub fn new(text: String, severity: MessageSeverity, duration: u64, now: u64) -> (msg: Self)
        ensures
            msg.text == text,
            msg.severity == severity,
            msg.duration == duration,
            msg.time == now,
    {
        Message { text, severity, duration, time: now }
    }

    /// An empty info message made at `now`, shown for three seconds.
    pub fn default(now: u64) -> (msg: Self)
        ensures
            msg.text@ == Seq::<char>::empty(),
            msg.severity == MessageSeverity::Info,
            msg.duration == 3000,
            msg.time == now,
    {
        Message { text: String::new(), severity: MessageSeverity::Info, duration: 3000, time: now }
    }

    /// The message is still shown at `now`: less than its duration has passed.
    pub open spec fn live(&self, now: u64) -> bool {
        elapsed(self.time, now) < self.duration
    }

    /// Whether the message is still shown at `now`.
    pub fn is_live(&self, now: u64) -> (yes: bool)
        ensures
            yes == self.live(now),
    {
        let passed: u64 = if now >= self.time { now - self.time } else { 0 };
        passed < self.duration
    }

    /// Milliseconds for which the message is still shown at `now`.
    pub open spec fn left(&self, now: u64) -> int {
        if self.live(now) {
            self.duration - elapsed(self.time, now)
        } else {
            0
        }
    }

    /// Milliseconds for which the message is still shown at `now`.
    pub fn remaining(&self, now: u64) -> (left: u64)
        ensures
            left == self.left(now),
    {
        let passed: u64 = if now >= self.time { now - self.time } else { 0 };
        if passed < self.duration {
            self.duration - passed
        } else {
            0
        }
    }

    /// A copy of the message.
    pub fn duplicate(&self) -> (copy: Message)
        ensures
            copy == *self,
    {
        Message {
            text: self.text.clone(),
            severity: self.severity,
            duration: self.duration,
            time: self.time,
        }
    }
}

impl Default for Messages {
    /// No messages.
    fn default() -> (all: Self)
        ensures
            all.messages@.len() == 0,
    {
        Messages { messages: Vec::new() }
    }
}

/// The messages of `all` that are still shown at `now`, in their order.
pub open spec fn live_messages(all: Seq<Message>, now: u64) -> Seq<Message>
    decreases all.len(),
{
    if all.len() == 0 {
        all
    } else if all.last().live(now) {
        live_messages(all.drop_last(), now).push(all.last())
    } else {
        live_messages(all.drop_last(), now)
    }
}

/// Bytes that a text takes in UTF-8.
pub open spec fn text_bytes(text: Seq<char>) -> int {
    vstd::utf8::encode_utf8(text).len() as int
}

/// Width of the notification of a text of `bytes` bytes: the text, a
/// blank and the border, as far as the screen's coordinates go.
pub open spec fn toast_width(bytes: int) -> int {
    if bytes + 4 <= u16::MAX { bytes + 4 } else { u16::MAX as int }
}

/// The place of the notification at `index` of the stack on a screen of
/// `columns` columns: one column off the right edge, or at the left edge
/// where the screen is too narrow, below the notifications before it with
/// a line between them.
pub open spec fn toast_area(columns: u16, index: int, bytes: int) -> Rect {
    let width = toast_width(bytes);
    let top = index * (TOAST_HEIGHT + 1) + 1;
    Rect {
        x: (if columns >= width + 1 { columns - width - 1 } else { 0 }) as u16,
        y: (if top <= u16::MAX { top } else { u16::MAX as int }) as u16,
        width: width as u16,
        height: TOAST_HEIGHT,
    }
}

/// A notification as it is drawn: where, in the dress of which severity,
/// and for how many milliseconds more.
#[derive(Debug, Clone, Copy, PartialEq, Eq, Structural)]
pub struct Toast {
    pub area: Rect,
    pub severity: MessageSeverity,
    pub remaining: u64,
}

impl Messages {
    /// Puts a message at the end of those on display.
    pub fn add(&mut self, msg: Message)
        ensures
            final(self).messages@ == old(self).messages@.push(msg),
    {
        self.messages.push(msg);
    }

    /// Takes away the messages whose time has passed at `now`.
    pub fn expire(&mut self, now: u64)
        ensures
            final(self).messages@ == live_messages(old(self).messages@, now),
    {
        let mut kept: Vec<Message> = Vec::new();
        let mut i: usize = 0;
        while i < self.messages.len()
            invariant
                i <= self.messages.len(),
                self.messages == old(self).messages,
                kept@ == live_messages(self.messages@.take(i as int), now),
            decreases self.messages.len() - i,
        {
            proof {
                assert(self.messages@.take(i + 1).drop_last() =~= self.messages@.take(i as int));
            }
            if self.messages[i].is_live(now) {
                kept.push(self.messages[i].duplicate());
            }
            i += 1;
        }
        assert(self.messages@.take(i as int) =~= self.messages@);
        self.messages = kept;
    }

    /// Where each message on display is drawn on a screen of `columns`
    /// columns, in the order of the messages.
    pub fn placements(&self, columns: u16) -> (areas: Vec<Rect>)
        ensures
            areas.len() == self.messages.len(),
            forall|i: int|
                0 <= i < areas.len() ==> #[trigger] areas[i] == toast_area(
                    columns,
                    i,
                    text_bytes(self.messages[i].text@),
                ),
    {
        let mut areas: Vec<Rect> = Vec::new();
        let mut i: usize = 0;
        while i < self.messages.len()
            invariant
                i <= self.messages.len(),
                areas.len() == i,
                forall|j: int|
                    0 <= j < i ==> #[trigger] areas[j] == toast_area(
                        columns,
                        j,
                        text_bytes(self.messages[j].text@),
                    ),
            decreases self.messages.len() - i,
        {
            let bytes: usize = self.messages[i].text.as_str().as_bytes().len();
            let width: u16 = if bytes <= 65531 { (bytes + 4) as u16 } else { u16::MAX };
            let x: u16 = if columns > width { columns - width - 1 } else { 0 };
            let y: u16 = if i <= 16383 { (i * 4 + 1) as u16 } else { u16::MAX };
            areas.push(Rect { x, y, width, height: TOAST_HEIGHT });
            i += 1;
        }
        areas
    }
}

impl Messages {
    /// Takes away the messages whose time has passed at `now` and returns,
    /// for each message that is left, how it is drawn on a screen of
    /// `columns` columns.
    pub fn draw(&mut self, columns: u16, now: u64) -> (toasts: Vec<Toast>)
        ensures
            final(self).messages@ == live_messages(old(self).messages@, now),
            toasts.len() == final(self).messages.len(),
            forall|i: int|
                0 <= i < toasts.len() ==> #[trigger] toasts[i] == (Toast {
                    area: toast_area(columns, i, text_bytes(final(self).messages[i].text@)),
                    severity: final(self).messages[i].severity,
                    remaining: final(self).messages[i].left(now) as u64,
                }),
    {
        self.expire(now);
        let areas = self.placements(columns);
        let mut toasts: Vec<Toast> = Vec::new();
        let mut i: usize = 0;
        while i < self.messages.len()
            invariant
                i <= self.messages.len(),
                areas.len() == self.messages.len(),
                toasts.len() == i,
                forall|j: int|
                    0 <= j < areas.len() ==> #[trigger] areas[j] == toast_area(
                        columns,
                        j,
                        text_bytes(self.messages[j].text@),
                    ),
                forall|j: int|
                    0 <= j < i ==> #[trigger] toasts[j] == (Toast {
                        area: toast_area(columns, j, text_bytes(self.messages[j].text@)),
                        severity: self.messages[j].severity,
                        remaining: self.messages[j].left(now) as u64,
                    }),
            decreases self.messages.len() - i,
        {
            toasts.push(
                Toast {
                    area: areas[i],
                    severity: self.messages[i].severity,
                    remaining: self.messages[i].remaining(now),
                },
            );
            i += 1;
        }
        toasts
    }
}

/// The messages that are still shown at a time are those of the messages
/// that were live then, and no others: expired messages leave no gap and
/// no message is shown longer than its time.
pub proof fn lemma_live_messages(all: Seq<Message>, now: u64)
    ensures
        forall|i: int|
            0 <= i < live_messages(all, now).len() ==> (#[trigger] live_messages(all, now)[i]).live(
                now,
            ),
        forall|m: Message| #[trigger]
            live_messages(all, now).contains(m) <==> all.contains(m) && m.live(now),
    decreases all.len(),
{
    let out = live_messages(all, now);
    if all.len() > 0 {
        let head = all.drop_last();
        let before = live_messages(head, now);
        lemma_live_messages(head, now);
        assert forall|m: Message| #[trigger] out.contains(m) <==> all.contains(m) && m.live(
            now,
        ) by {
            if out.contains(m) {
                let k = choose|k: int| 0 <= k < out.len() && out[k] == m;
                if k < before.len() {
                    assert(before[k] == m);
                    assert(before.contains(m));
                    let j = choose|j: int| 0 <= j < head.len() && head[j] == m;
                    assert(all[j] == m);
                } else {
                    assert(all[all.len() - 1] == m);
                }
            }
            if all.contains(m) && m.live(now) {
                let j = choose|j: int| 0 <= j < all.len() && all[j] == m;
                if j < head.len() {
                    assert(head[j] == m);
                    assert(head.contains(m));
                    assert(before.contains(m));
                    let k = choose|k: int| 0 <= k < before.len() && before[k] == m;
                    assert(out[k] == m);
                } else {
                    assert(out[out.len() - 1] == m);
                }
            }
        }
    }
}

} // verus!
