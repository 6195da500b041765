//! The assembly of fragmented messages: an opening data frame, any number of
//! continuation frames, and control frames that may come in between.

use crate::proto::{DataType, Error, Opcode};
use crate::text::is_utf8;
use vstd::prelude::*;
use vstd::utf8::valid_utf8;

verus! {

/// What one frame gave to the application.
#[derive(Debug, PartialEq, Eq)]
pub enum Event {
    /// The frame was taken into a message that is not complete yet.
    Pending,
    /// A message is complete.
    Message { ty: DataType, payload: Vec<u8> },
    /// A control frame, handed on as it came.
    Control { opcode: Opcode, payload: Vec<u8> },
}

/// An event as a mathematical value.
pub enum EventView {
    Pending,
    Message { ty: DataType, payload: Seq<u8> },
    Control { opcode: Opcode, payload: Seq<u8> },
}

impl View for Event {
    type V = EventView;

    open spec fn view(&self) -> EventView {
        match *self {
            Event::Pending => EventView::Pending,
            Event::Message { ty, payload } => EventView::Message { ty, payload: payload@ },
            Event::Control { opcode, payload } => EventView::Control { opcode, payload: payload@ },
        }
    }
}

/// The message that is being assembled, if any: its type and the bytes that
/// have arrived so far.
pub type Progress = Option<(DataType, Seq<u8>)>;

/// A complete message is delivered unless it is text that is not UTF-8.
pub open spec fn deliver(ty: DataType, payload: Seq<u8>) -> Result<(Progress, EventView), Error> {
    if ty == DataType::Text && !valid_utf8(payload) {
        Err(Error::InvalidPayloadData)
    } else {
        Ok((None, EventView::Message { ty, payload }))
    }
}

/// The state machine: from the message in progress and one frame to the
/// message in progress afterwards and what the frame gave, or the error. An
/// error leaves no message in progress.
pub open spec fn step(state: Progress, fin: bool, opcode: Opcode, payload: Seq<u8>) -> Result<
    (Progress, EventView),
    Error,
> {
    match opcode {
        Opcode::Close | Opcode::Ping | Opcode::Pong => if fin && payload.len() <= 125 {
            Ok((state, EventView::Control { opcode, payload }))
        } else {
            Err(Error::ProtocolError)
        },
        Opcode::Text | Opcode::Binary => match state {
            Some(_) => Err(Error::UnexpectedDataFrame),
            None => {
                let ty = DataType::spec_from_opcode(opcode).unwrap();
                if fin {
                    deliver(ty, payload)
                } else {
                    Ok((Some((ty, payload)), EventView::Pending))
                }
            },
        },
        Opcode::Continue => match state {
            None => Err(Error::UnexpectedContinuation),
            Some((ty, bytes)) => if fin {
                deliver(ty, bytes + payload)
            } else {
                Ok((Some((ty, bytes + payload)), EventView::Pending))
            },
        },
    }
}

/// The message in progress after a step: on an error there is none.
pub open spec fn progress_after(
    state: Progress,
    fin: bool,
    opcode: Opcode,
    payload: Seq<u8>,
) -> Progress {
    match step(state, fin, opcode, payload) {
        Ok((next, _)) => next,
        Err(_) => if opcode.is_control() {
            state
        } else {
            None
        },
    }
}

/// The outcome of a step as a mathematical value.
pub open spec fn outcome_view(r: Result<Event, Error>) -> Result<EventView, Error> {
    match r {
        Ok(event) => Ok(event@),
        Err(e) => Err(e),
    }
}

/// What a step gives, without the state.
pub open spec fn outcome_of(state: Progress, fin: bool, opcode: Opcode, payload: Seq<u8>) -> Result<
    EventView,
    Error,
> {
    match step(state, fin, opcode, payload) {
        Ok((_, event)) => Ok(event),
        Err(e) => Err(e),
    }
}

/// A control frame that comes between the frames of a message changes
/// nothing of the assembly: the next frame gives what it would have given
/// without the control frame.
pub proof fn lemma_control_frame_keeps_progress(
    state: Progress,
    control: Opcode,
    control_fin: bool,
    control_payload: Seq<u8>,
    fin: bool,
    opcode: Opcode,
    payload: Seq<u8>,
)
    requires
        control.is_control(),
    ensures
        progress_after(state, control_fin, control, control_payload) == state,
        step(progress_after(state, control_fin, control, control_payload), fin, opcode, payload)
            == step(state, fin, opcode, payload),
{
}

/// The payloads of a run of frames, joined in their order.
pub open spec fn joined(parts: Seq<Seq<u8>>) -> Seq<u8>
    decreases parts.len(),
{
    if parts.len() == 0 {
        Seq::<u8>::empty()
    } else {
        joined(parts.drop_last()) + parts.last()
    }
}

/// The message in progress after a run of continuation frames that are not
/// final, with the given payloads.
pub open spec fn after_continuations(state: Progress, parts: Seq<Seq<u8>>) -> Progress
    decreases parts.len(),
{
    if parts.len() == 0 {
        state
    } else {
        progress_after(
            after_continuations(state, parts.drop_last()),
            false,
            Opcode::Continue,
            parts.last(),
        )
    }
}

/// A message sent in fragments arrives whole: after an opening frame that is
/// not final and any number of continuation frames, the final continuation
/// frame delivers the payloads of all the frames joined in their order, under
/// the type of the opening frame, and leaves no message in progress.
pub proof fn lemma_fragments_join(
    ty: DataType,
    first: Seq<u8>,
    middle: Seq<Seq<u8>>,
    last: Seq<u8>,
)
    requires
        ty == DataType::Text ==> valid_utf8(first + joined(middle) + last),
    ensures
        step(None, false, ty.opcode(), first) == Ok::<(Progress, EventView), Error>(
            (Some((ty, first)), EventView::Pending),
        ),
        after_continuations(Some((ty, first)), middle) == Some((ty, first + joined(middle))),
        step(after_continuations(Some((ty, first)), middle), true, Opcode::Continue, last) == Ok::<
            (Progress, EventView),
            Error,
        >((None, EventView::Message { ty, payload: first + joined(middle) + last })),
{
    lemma_continuations_extend(ty, first, middle);
}

/// A run of continuation frames that are not final extends the message in
/// progress by their payloads, in their order.
pub proof fn lemma_continuations_extend(ty: DataType, bytes: Seq<u8>, parts: Seq<Seq<u8>>)
    ensures
        after_continuations(Some((ty, bytes)), parts) == Some((ty, bytes + joined(parts))),
    decreases parts.len(),
{
    if parts.len() == 0 {
        assert(bytes + joined(parts) =~= bytes);
    } else {
        lemma_continuations_extend(ty, bytes, parts.drop_last());
        assert((bytes + joined(parts.drop_last())) + parts.last() =~= bytes + joined(parts));
    }
}

/// The assembler: idle, or holding the type and the bytes of the message in
/// progress.
#[derive(Debug)]
pub struct Assembly {
    open: Option<DataType>,
    bytes: Vec<u8>,
}

impl View for Assembly {
    type V = Progress;

    closed spec fn view(&self) -> Progress {
        match self.open {
            Some(ty) => Some((ty, self.bytes@)),
            None => None,
        }
    }
}

impl Assembly {
    /// An assembler with no message in progress.
    pub fn new() -> (r: Assembly)
        ensures
            r@ == None::<(DataType, Seq<u8>)>,
    {
        Assembly { open: None, bytes: Vec::new() }
    }

    /// Whether a message is in progress.
    pub fn is_assembling(&self) -> (r: bool)
        ensures
            r == (self@ is Some),
    {
        self.open.is_some()
    }

    /// The type of the message in progress.
    pub fn data_type(&self) -> (r: Option<DataType>)
        ensures
            r == (match self@ {
                Some((ty, _)) => Some(ty),
                None => None,
            }),
    {
        self.open
    }

    /// The number of bytes of the message in progress that have arrived.
    pub fn assembled_len(&self) -> (r: usize)
        ensures
            r == (match self@ {
                Some((_, bytes)) => bytes.len(),
                None => 0,
            }),
    {
        match self.open {
            Some(_) => self.bytes.len(),
            None => 0,
        }
    }

    /// Takes one frame: FIN bit, opcode and unmasked payload.
    pub fn feed(&mut self, fin: bool, opcode: Opcode, payload: Vec<u8>) -> (r: Result<Event, Error>)
        ensures
            outcome_view(r) == outcome_of(old(self)@, fin, opcode, payload@),
            final(self)@ == progress_after(old(self)@, fin, opcode, payload@),
    {
        let mut payload = payload;
        match opcode {
            Opcode::Close | Opcode::Ping | Opcode::Pong => {
                if fin && payload.len() <= 125 {
                    Ok(Event::Control { opcode, payload })
                } else {
                    Err(Error::ProtocolError)
                }
            },
            Opcode::Text | Opcode::Binary => {
                if self.open.is_some() {
                    self.open = None;
                    return Err(Error::UnexpectedDataFrame);
                }
                let ty: DataType = match opcode {
                    Opcode::Text => DataType::Text,
                    _ => DataType::Binary,
                };
                if fin {
                    Self::finish(ty, payload)
                } else {
                    self.open = Some(ty);
                    self.bytes = payload;
                    Ok(Event::Pending)
                }
            },
            Opcode::Continue => {
                let ty: DataType = match self.open {
                    Some(ty) => ty,
                    None => {
                        return Err(Error::UnexpectedContinuation);
                    },
                };
                self.bytes.append(&mut payload);
                if fin {
                    let mut whole: Vec<u8> = Vec::new();
                    core::mem::swap(&mut self.bytes, &mut whole);
                    self.open = None;
                    Self::finish(ty, whole)
                } else {
                    Ok(Event::Pending)
                }
            },
        }
    }

    /// Delivers a complete message, unless it is text that is not UTF-8.
    fn finish(ty: DataType, payload: Vec<u8>) -> (r: Result<Event, Error>)
        ensures
            outcome_view(r) == (match deliver(ty, payload@) {
                Ok((_, event)) => Ok::<EventView, Error>(event),
                Err(e) => Err(e),
            }),
    {
        let text: bool = match ty {
            DataType::Text => true,
            DataType::Binary => false,
        };
        if text && !is_utf8(payload.as_slice()) {
            Err(Error::InvalidPayloadData)
        } else {
            Ok(Event::Message { ty, payload })
        }
    }
}

} // verus!
