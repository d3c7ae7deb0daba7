//! Event values passed through the element tree. An `ActionMsg` carries the
//! id of its sender and a tagged payload: pointer events in pixel
//! coordinates, widget events (press, release, click, hover), typed data,
//! the periodic update tick, and the exit notice.

use vstd::prelude::*;

verus! {

/// The payload of a message. Pointer coordinates are window pixels.
#[derive(Debug, Clone, PartialEq)]
pub enum ActionMsgData {
    Mouse(i64, i64),
    MousePressLeft(i64, i64),
    MousePressRight(i64, i64),
    MousePressMiddle(i64, i64),
    MouseReleaseLeft(i64, i64),
    MouseReleaseRight(i64, i64),
    MouseReleaseMiddle(i64, i64),
    MouseDragLeft(i64, i64),
    MouseDragRight(i64, i64),
    MouseDragMiddle(i64, i64),
    MouseWheel(i64, i64),
    MouseGone,
    Click,
    Press,
    Release,
    Hover,
    HoverGone,
    Text(String),
    U8(u8),
    U16(u16),
    U32(u32),
    U64(u64),
    I64(i64),
    I32(i32),
    Usize(usize),
    Exit,
    Update,
    Nothing,
}

impl ActionMsgData {
    /// An exact copy.
    pub fn duplicate(&self) -> (r: ActionMsgData)
        ensures
            r == *self,
    {
        match self {
            ActionMsgData::Mouse(x, y) => ActionMsgData::Mouse(*x, *y),
            ActionMsgData::MousePressLeft(x, y) => ActionMsgData::MousePressLeft(*x, *y),
            ActionMsgData::MousePressRight(x, y) => ActionMsgData::MousePressRight(*x, *y),
            ActionMsgData::MousePressMiddle(x, y) => ActionMsgData::MousePressMiddle(*x, *y),
            ActionMsgData::MouseReleaseLeft(x, y) => ActionMsgData::MouseReleaseLeft(*x, *y),
            ActionMsgData::MouseReleaseRight(x, y) => ActionMsgData::MouseReleaseRight(*x, *y),
            ActionMsgData::MouseReleaseMiddle(x, y) => ActionMsgData::MouseReleaseMiddle(*x, *y),
            ActionMsgData::MouseDragLeft(x, y) => ActionMsgData::MouseDragLeft(*x, *y),
            ActionMsgData::MouseDragRight(x, y) => ActionMsgData::MouseDragRight(*x, *y),
            ActionMsgData::MouseDragMiddle(x, y) => ActionMsgData::MouseDragMiddle(*x, *y),
            ActionMsgData::MouseWheel(x, y) => ActionMsgData::MouseWheel(*x, *y),
            ActionMsgData::MouseGone => ActionMsgData::MouseGone,
            ActionMsgData::Click => ActionMsgData::Click,
            ActionMsgData::Press => ActionMsgData::Press,
            ActionMsgData::Release => ActionMsgData::Release,
            ActionMsgData::Hover => ActionMsgData::Hover,
            ActionMsgData::HoverGone => ActionMsgData::HoverGone,
            ActionMsgData::Text(s) => ActionMsgData::Text(s.clone()),
            ActionMsgData::U8(v) => ActionMsgData::U8(*v),
            ActionMsgData::U16(v) => ActionMsgData::U16(*v),
            ActionMsgData::U32(v) => ActionMsgData::U32(*v),
            ActionMsgData::U64(v) => ActionMsgData::U64(*v),
            ActionMsgData::I64(v) => ActionMsgData::I64(*v),
            ActionMsgData::I32(v) => ActionMsgData::I32(*v),
            ActionMsgData::Usize(v) => ActionMsgData::Usize(*v),
            ActionMsgData::Exit => ActionMsgData::Exit,
            ActionMsgData::Update => ActionMsgData::Update,
            ActionMsgData::Nothing => ActionMsgData::Nothing,
        }
    }
}

/// An event: who sent it, and what it says.
#[derive(Debug, Clone)]
pub struct ActionMsg {
    pub sender_id: String,
    pub msg: ActionMsgData,
}

impl ActionMsg {
    /// The message that says nothing, from nobody.
    pub fn empty() -> (r: ActionMsg)
        ensures
            r.sender_id@ == Seq::<char>::empty(),
            r.msg == ActionMsgData::Nothing,
    {
        ActionMsg { sender_id: String::new(), msg: ActionMsgData::Nothing }
    }

    /// An exact copy.
    pub fn duplicate(&self) -> (r: ActionMsg)
        ensures
            r == *self,
    {
        ActionMsg { sender_id: self.sender_id.clone(), msg: self.msg.duplicate() }
    }
}

/// The payload discriminant, used by handler registries to say which
/// messages they react to without naming the carried values.
#[derive(Debug, PartialEq, Eq, Structural, Copy, Clone)]
pub enum MsgKind {
    Mouse,
    MousePressLeft,
    MousePressRight,
    MousePressMiddle,
    MouseReleaseLeft,
    MouseReleaseRight,
    MouseReleaseMiddle,
    MouseDragLeft,
    MouseDragRight,
    MouseDragMiddle,
    MouseWheel,
    MouseGone,
    Click,
    Press,
    Release,
    Hover,
    HoverGone,
    Text,
    U8,
    U16,
    U32,
    U64,
    I64,
    I32,
    Usize,
    Exit,
    Update,
    Nothing,
}

/// The discriminant of a payload.
pub open spec fn spec_kind_of(d: ActionMsgData) -> MsgKind {
    match d {
        ActionMsgData::Mouse(..) => MsgKind::Mouse,
        ActionMsgData::MousePressLeft(..) => MsgKind::MousePressLeft,
        ActionMsgData::MousePressRight(..) => MsgKind::MousePressRight,
        ActionMsgData::MousePressMiddle(..) => MsgKind::MousePressMiddle,
        ActionMsgData::MouseReleaseLeft(..) => MsgKind::MouseReleaseLeft,
        ActionMsgData::MouseReleaseRight(..) => MsgKind::MouseReleaseRight,
        ActionMsgData::MouseReleaseMiddle(..) => MsgKind::MouseReleaseMiddle,
        ActionMsgData::MouseDragLeft(..) => MsgKind::MouseDragLeft,
        ActionMsgData::MouseDragRight(..) => MsgKind::MouseDragRight,
        ActionMsgData::MouseDragMiddle(..) => MsgKind::MouseDragMiddle,
        ActionMsgData::MouseWheel(..) => MsgKind::MouseWheel,
        ActionMsgData::MouseGone => MsgKind::MouseGone,
        ActionMsgData::Click => MsgKind::Click,
        ActionMsgData::Press => MsgKind::Press,
        ActionMsgData::Release => MsgKind::Release,
        ActionMsgData::Hover => MsgKind::Hover,
        ActionMsgData::HoverGone => MsgKind::HoverGone,
        ActionMsgData::Text(..) => MsgKind::Text,
        ActionMsgData::U8(..) => MsgKind::U8,
        ActionMsgData::U16(..) => MsgKind::U16,
        ActionMsgData::U32(..) => MsgKind::U32,
        ActionMsgData::U64(..) => MsgKind::U64,
        ActionMsgData::I64(..) => MsgKind::I64,
        ActionMsgData::I32(..) => MsgKind::I32,
        ActionMsgData::Usize(..) => MsgKind::Usize,
        ActionMsgData::Exit => MsgKind::Exit,
        ActionMsgData::Update => MsgKind::Update,
        ActionMsgData::Nothing => MsgKind::Nothing,
    }
}

/// The discriminant of a payload.
pub fn kind_of(d: &ActionMsgData) -> (r: MsgKind)
    ensures
        r == spec_kind_of(*d),
{
    match d {
        ActionMsgData::Mouse(..) => MsgKind::Mouse,
        ActionMsgData::MousePressLeft(..) => MsgKind::MousePressLeft,
        ActionMsgData::MousePressRight(..) => MsgKind::MousePressRight,
        ActionMsgData::MousePressMiddle(..) => MsgKind::MousePressMiddle,
        ActionMsgData::MouseReleaseLeft(..) => MsgKind::MouseReleaseLeft,
        ActionMsgData::MouseReleaseRight(..) => MsgKind::MouseReleaseRight,
        ActionMsgData::MouseReleaseMiddle(..) => MsgKind::MouseReleaseMiddle,
        ActionMsgData::MouseDragLeft(..) => MsgKind::MouseDragLeft,
        ActionMsgData::MouseDragRight(..) => MsgKind::MouseDragRight,
        ActionMsgData::MouseDragMiddle(..) => MsgKind::MouseDragMiddle,
        ActionMsgData::MouseWheel(..) => MsgKind::MouseWheel,
        ActionMsgData::MouseGone => MsgKind::MouseGone,
        ActionMsgData::Click => MsgKind::Click,
        ActionMsgData::Press => MsgKind::Press,
        ActionMsgData::Release => MsgKind::Release,
        ActionMsgData::Hover => MsgKind::Hover,
        ActionMsgData::HoverGone => MsgKind::HoverGone,
        ActionMsgData::Text(..) => MsgKind::Text,
        ActionMsgData::U8(..) => MsgKind::U8,
        ActionMsgData::U16(..) => MsgKind::U16,
        ActionMsgData::U32(..) => MsgKind::U32,
        ActionMsgData::U64(..) => MsgKind::U64,
        ActionMsgData::I64(..) => MsgKind::I64,
        ActionMsgData::I32(..) => MsgKind::I32,
        ActionMsgData::Usize(..) => MsgKind::Usize,
        ActionMsgData::Exit => MsgKind::Exit,
        ActionMsgData::Update => MsgKind::Update,
        ActionMsgData::Nothing => MsgKind::Nothing,
    }
}

} // verus!
