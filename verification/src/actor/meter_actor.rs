//! A meter behind its messages: commands of the protocol and of the administration.

use crate::actor::continuation::{
    di_number, fragment, joined, law_pieces_make_answer, more_after, number_of_di, ContinuationCache, FollowOn, PendingModel,
    MAX_FRAGMENT,
};
use crate::actor::admin::{admin_done, administer, AdminError, AdminReply};
use crate::actor::messages::{AdminCommand, RegistryMsg, TickMsg};
use crate::bytes::{append, to_vec};
use crate::protocol::codec::{
    decoded, encode_error_response, encode_frame, encode_frame_raw, encoded, error_frame,
    frame_bytes, frame_error, law_error_answer_decodes, law_frame_roundtrip, ErrorInfoWord,
};
use crate::protocol::frame::{Frame, FrameModel};
use crate::quantity::{product, product_of, Quantity};
use crate::simulation::commands::{
    access_error, baud_command_error, broadcast_time_valid, clear_command_error, clock_broadcast,
    demand_clear_logged, events_cleared,
    freeze_carried_out, freeze_command_error, level_of, meter_cleared,
    password_changed, password_command_error, write_carried_out,
    write_command_error,
};
use crate::simulation::di_handler::load_profile::{curve_bytes, record_block, RecordQuery};
use crate::simulation::di_handler::read_error::{result_bytes, ReadError};
use crate::simulation::load_record::LoadRecordSample;
use crate::simulation::measurement::Noise;
use crate::simulation::physics_engine::{can_step, simulated_nanos};
use crate::simulation::state::MeterState;
use crate::simulation::virtual_meter::{
    meter_stepped, read_planned, MeterModel, ReadPlan, TickOutput, VirtualMeter,
};
use crate::time::DateTime;
use vstd::prelude::*;

verus! {

/// What a meter is run with.
#[derive(Debug, Clone, Copy, PartialEq, Eq)]
pub struct MeterActorConfig {
    pub address: [u8; 6],
    /// how many commands may wait
    pub cmd_queue_capacity: usize,
    pub enable_persistence: bool,
    /// whether records can be looked up
    pub has_store: bool,
}

impl Default for MeterActorConfig {
    fn default() -> (r: MeterActorConfig)
        ensures
            r.address@ == seq![0x12u8, 0x34, 0x56, 0x78, 0x90, 0x12],
            r.cmd_queue_capacity == 100,
            r.enable_persistence,
            !r.has_store,
    {
        let r = MeterActorConfig {
            address: [0x12, 0x34, 0x56, 0x78, 0x90, 0x12],
            cmd_queue_capacity: 100,
            enable_persistence: true,
            has_store: false,
        };
        assert(r.address@ =~= seq![0x12u8, 0x34, 0x56, 0x78, 0x90, 0x12]);
        r
    }
}

/// A meter with its configuration and the answers it is sending in pieces.
#[derive(Debug)]
pub struct MeterActor {
    meter: VirtualMeter,
    config: MeterActorConfig,
    pending: ContinuationCache,
}

/// A meter behind its messages, as a mathematical value.
pub ghost struct ActorModel {
    pub meter: MeterModel,
    pub config: MeterActorConfig,
    pub pending: Map<(u64, u32), PendingModel>,
}

impl View for MeterActor {
    type V = ActorModel;

    closed spec fn view(&self) -> ActorModel {
        ActorModel { meter: self.meter@, config: self.config, pending: self.pending@ }
    }
}

/// What a command of the protocol comes to.
#[derive(Debug)]
pub enum ProtocolStep {
    /// The bytes to send, none if there is no answer; and the meter's new address, if it has
    /// one.
    Reply { bytes: Vec<u8>, moved: Option<RegistryMsg> },
    /// Load records have to be looked up first.
    Records { query: RecordQuery },
    /// A snapshot has to be looked up first.
    Frozen { trigger: u8, category: u8, occurrence: u8 },
}

/// The answer to a request, with the request's address.
pub open spec fn answer(request: FrameModel, control: u8, data: Seq<u8>) -> Seq<u8> {
    encoded(FrameModel { address: request.address, control, data })
}

/// The error answer to a request.
pub open spec fn refusal(request: FrameModel, word: u8) -> Seq<u8> {
    encoded(error_frame(request.address, request.control, word))
}

/// What a read is answered once its outcome is known. Up to 195 bytes go out at once; of
/// more the first 195 go out with the mark for more, and the answer is kept.
pub open spec fn read_answered(
    a0: ActorModel,
    a1: ActorModel,
    conn_id: u64,
    request: FrameModel,
    outcome: Result<Seq<u8>, ReadError>,
    reply: Seq<u8>,
) -> bool {
    let di = request.data.take(4);
    match outcome {
        Ok(data) => if data.len() <= 195 {
            a1 == a0 && reply == answer(request, 0x91, di + data)
        } else {
            &&& a1 == (ActorModel {
                pending: a0.pending.insert((conn_id, di_number(di)), PendingModel { data, sent: 1 }),
                ..a0
            })
            &&& reply == answer(request, 0xB1, di + fragment(data, 0))
        },
        Err(e) => a1 == a0 && reply == refusal(request, e.word()),
    }
}

/// A step that is a reply, without a new address.
pub open spec fn replied(step: ProtocolStep, reply: Seq<u8>) -> bool {
    step matches ProtocolStep::Reply { bytes, moved: None } && bytes@ == reply
}

/// What a read comes to at first, given how it goes on.
pub open spec fn read_begun(
    a0: ActorModel,
    a1: ActorModel,
    conn_id: u64,
    request: FrameModel,
    plan: Result<ReadPlan, ReadError>,
    step: ProtocolStep,
) -> bool {
    match plan {
        Ok(ReadPlan::Records(query)) => a1 == a0 && step == (ProtocolStep::Records { query }),
        Ok(ReadPlan::Frozen { trigger, category, occurrence }) => a1 == a0 && step == (
        ProtocolStep::Frozen { trigger, category, occurrence }),
        Ok(ReadPlan::Answer(data)) => step matches ProtocolStep::Reply { bytes, moved: None }
            && read_answered(a0, a1, conn_id, request, Ok(data@), bytes@),
        Err(e) => step matches ProtocolStep::Reply { bytes, moved: None } && read_answered(
            a0,
            a1,
            conn_id,
            request,
            Err(e),
            bytes@,
        ),
    }
}

/// What a request for the next piece is answered: identifier, number and piece.
pub open spec fn follow_on_answered(
    a0: ActorModel,
    a1: ActorModel,
    conn_id: u64,
    request: FrameModel,
    reply: Seq<u8>,
) -> bool {
    let key = (conn_id, di_number(request.data.take(4)));
    let p = a0.pending[key];
    if request.data.len() != 5 {
        a1 == a0 && reply == refusal(request, 0x01)
    } else if !a0.pending.contains_key(key) {
        a1 == a0 && reply == refusal(request, 0x02)
    } else if request.data[4] != p.sent % 256 {
        a1 == (ActorModel { pending: a0.pending.remove(key), ..a0 }) && reply == refusal(
            request,
            0x01,
        )
    } else {
        &&& a1 == (ActorModel {
            pending: (if more_after(p.data, p.sent + 1) {
                a0.pending.insert(key, PendingModel { data: p.data, sent: p.sent + 1 })
            } else {
                a0.pending.remove(key)
            }),
            ..a0
        })
        &&& reply == answer(
            request,
            if more_after(p.data, p.sent + 1) {
                0xB2
            } else {
                0x92
            },
            request.data + fragment(p.data, p.sent),
        )
    }
}

/// What a command that acts on the state is answered, by its function. A refused command
/// changes nothing.
pub open spec fn command_answered(
    s0: MeterState,
    s1: MeterState,
    request: FrameModel,
    now: DateTime,
    reply: Seq<u8>,
) -> bool {
    let d = request.data;
    let function = request.control % 32;
    let refused = |word: u8| s1 == s0 && reply == refusal(request, word);
    let done = |control: u8| reply == answer(request, control, Seq::empty());
    if function == 0x08 {
        reply.len() == 0 && (if broadcast_time_valid(d) {
            clock_broadcast(s0, s1, d)
        } else {
            s1 == s0
        })
    } else if function == 0x13 {
        s1 == s0 && reply == (if d.len() == 0 {
            frame_bytes(s0.address@, 0x93, s0.address@)
        } else {
            Seq::empty()
        })
    } else if function == 0x14 {
        match write_command_error(s0, d) {
            Some(e) => refused(e.write_word()),
            None => write_carried_out(s0, s1, d) && done(0x94),
        }
    } else if function == 0x16 {
        match freeze_command_error(d) {
            Some(_) => refused(0x01),
            None => freeze_carried_out(s0, s1, d) && done(0x96),
        }
    } else if function == 0x17 {
        match baud_command_error(d) {
            Some(_) => refused(0x01),
            None => s1 == (MeterState { baudrate: d[0], ..s0 }) && done(0x97),
        }
    } else if function == 0x18 {
        match password_command_error(s0, d) {
            Some(e) => refused(e.password_word()),
            None => password_changed(s0, s1, d, now) && done(0x98),
        }
    } else if function == 0x19 {
        match clear_command_error(s0, d, 12, 4, 4) {
            Some(e) => refused(e.clear_word()),
            None => demand_clear_logged(s0, s1, d.subrange(8, 12), now) && done(0x99),
        }
    } else if function == 0x1A {
        match clear_command_error(s0, d, 8, 0, 2) {
            Some(e) => refused(e.clear_word()),
            None => meter_cleared(s0, s1, d.subrange(4, 8), now) && done(0x9A),
        }
    } else if function == 0x1B {
        match clear_command_error(s0, d, 8, 0, 2) {
            Some(e) => refused(e.clear_word()),
            None => events_cleared(s0, s1, d.subrange(4, 8), now) && done(0x9B),
        }
    } else {
        refused(0x02)
    }
}

/// A write of the address is accepted: it has 14 bytes and a password of level 4 or better.
pub open spec fn address_write_word(s: MeterState, d: Seq<u8>) -> Option<u8> {
    if d.len() != 14 {
        Some(0x01)
    } else if !s.password_config.accepts(level_of(d[6]), d.subrange(7, 10)) || level_of(d[6]) > 4 {
        Some(0x04)
    } else {
        None
    }
}

/// What a write of the address comes to: an answer under the new address.
pub open spec fn address_written(
    a0: ActorModel,
    a1: ActorModel,
    request: FrameModel,
    step: ProtocolStep,
) -> bool {
    let s1 = a1.meter.state;
    let new = request.data.take(6);
    match address_write_word(a0.meter.state, request.data) {
        Some(word) => a1 == a0 && replied(step, refusal(request, word)),
        None => {
            &&& s1.address@ == new
            &&& a1 == (ActorModel {
                meter: MeterModel {
                    state: MeterState { address: s1.address, ..a0.meter.state },
                    ..a0.meter
                },
                config: MeterActorConfig { address: s1.address, ..a0.config },
                ..a0
            })
            &&& step matches ProtocolStep::Reply { bytes, moved } && bytes@ == encoded(
                FrameModel { address: new, control: 0x95, data: new },
            ) && moved == Some(
                RegistryMsg::UpdateAddress { old: a0.meter.state.address, new: s1.address },
            )
        },
    }
}

/// What a command of the protocol comes to at time `now`, by its function: 11H read, 12H
/// read on, 15H write of the address, and the others.
pub open spec fn protocol_done(
    a0: ActorModel,
    a1: ActorModel,
    conn_id: u64,
    request: FrameModel,
    now: DateTime,
    step: ProtocolStep,
) -> bool {
    let function = request.control % 32;
    if function == 0x11 {
        exists|plan: Result<ReadPlan, ReadError>|
            {
                &&& #[trigger] read_planned(
                    a0.meter.state,
                    request.data,
                    a0.config.has_store,
                    plan,
                )
                &&& read_begun(a0, a1, conn_id, request, plan, step)
            }
    } else if function == 0x12 {
        step matches ProtocolStep::Reply { bytes, moved: None } && follow_on_answered(
            a0,
            a1,
            conn_id,
            request,
            bytes@,
        )
    } else if function == 0x15 {
        address_written(a0, a1, request, step)
    } else {
        &&& step matches ProtocolStep::Reply { bytes, moved: None } && command_answered(
            a0.meter.state,
            a1.meter.state,
            request,
            now,
            bytes@,
        )
        &&& a1 == (ActorModel { meter: MeterModel { state: a1.meter.state, ..a0.meter }, ..a0 })
    }
}

/// What a read of load records yields, given the records that were found.
pub open spec fn records_outcome(di: Seq<u8>, rows: Seq<LoadRecordSample>) -> Result<
    Seq<u8>,
    ReadError,
> {
    if di[2] == 0x10 {
        curve_bytes(di[1], di[0], rows)
    } else if rows.len() == 0 {
        Err(ReadError::NoRecord)
    } else {
        Ok(record_block(rows[0].sample_time, rows[0].data))
    }
}

/// Simulated time per real time: the common scale times the meter's own.
pub open spec fn meter_scale(a: ActorModel, tick: TickMsg) -> Quantity {
    product_of(tick.time_scale, a.meter.state.simulation_time_scale)
}

fn refuse(request: &Frame, word: ErrorInfoWord) -> (r: Vec<u8>)
    ensures
        r@ == refusal(request@, word.word()),
{
    encode_error_response(request.address, request.control, word)
}

fn acknowledge(request: &Frame, control: u8) -> (r: Vec<u8>)
    ensures
        r@ == answer(request@, control, Seq::empty()),
{
    let frame = Frame { address: request.address, control, data: Vec::new() };
    assert(frame.data@ =~= Seq::<u8>::empty());
    encode_frame(&frame)
}

fn function_of(control: u8) -> (r: u8)
    ensures
        r == control % 32,
{
    control % 32
}

fn reply_only(bytes: Vec<u8>) -> (r: ProtocolStep)
    ensures
        r == (ProtocolStep::Reply { bytes, moved: None }),
{
    ProtocolStep::Reply { bytes, moved: None }
}

impl MeterActor {
    pub closed spec fn wf(self) -> bool {
        self.meter.wf()
    }

    /// A meter with no answers to send.
    pub fn new(meter: VirtualMeter, config: MeterActorConfig) -> (r: MeterActor)
        ensures
            meter.wf() ==> r.wf(),
            r@ == (ActorModel {
                meter: meter@,
                config,
                pending: Map::<(u64, u32), PendingModel>::empty(),
            }),
    {
        MeterActor { meter, config, pending: ContinuationCache::new() }
    }

    pub fn meter(&self) -> (r: &VirtualMeter)
        ensures
            r@ == self@.meter,
            self.wf() ==> r.wf(),
    {
        &self.meter
    }

    pub fn config(&self) -> (r: &MeterActorConfig)
        ensures
            *r == self@.config,
    {
        &self.config
    }

    /// Answers a read whose outcome is known.
    pub fn finish_read(
        &mut self,
        conn_id: u64,
        request: &Frame,
        outcome: Result<Vec<u8>, ReadError>,
    ) -> (r: Vec<u8>)
        requires
            request@.data.len() >= 4 || outcome is Err,
        ensures
            old(self).wf() ==> final(self).wf(),
            read_answered(
                old(self)@,
                final(self)@,
                conn_id,
                request@,
                result_bytes(outcome),
                r@,
            ),
    {
        match outcome {
            Ok(data) => {
                let di: [u8; 4] = [
                    request.data[0],
                    request.data[1],
                    request.data[2],
                    request.data[3],
                ];
                assert(di@ =~= request.data@.take(4));
                if data.len() <= MAX_FRAGMENT {
                    let frame = Frame::response(request.address, di, &data);
                    return encode_frame(&frame);
                }
                let mut bytes = to_vec(di.as_slice());
                append(&mut bytes, vstd::slice::slice_subrange(data.as_slice(), 0, MAX_FRAGMENT));
                assert(bytes@ =~= di@ + fragment(data@, 0));
                self.pending.store(conn_id, number_of_di(di), data);
                let frame = Frame { address: request.address, control: 0xB1, data: bytes };
                encode_frame(&frame)
            },
            Err(e) => refuse(request, e.error_word()),
        }
    }

    /// Carries out a read.
    fn handle_read_command(&mut self, conn_id: u64, request: &Frame) -> (r: ProtocolStep)
        ensures
            old(self).wf() ==> final(self).wf(),
            exists|plan: Result<ReadPlan, ReadError>|
                {
                    &&& #[trigger] read_planned(
                        old(self)@.meter.state,
                        request@.data,
                        old(self)@.config.has_store,
                        plan,
                    )
                    &&& read_begun(old(self)@, final(self)@, conn_id, request@, plan, r)
                },
    {
        let plan = self.meter.plan_read(request.data.as_slice(), self.config.has_store);
        let ghost planned = plan;
        let step = match plan {
            Ok(ReadPlan::Answer(data)) => reply_only(self.finish_read(conn_id, request, Ok(data))),
            Ok(ReadPlan::Records(query)) => ProtocolStep::Records { query },
            Ok(ReadPlan::Frozen { trigger, category, occurrence }) => ProtocolStep::Frozen {
                trigger,
                category,
                occurrence,
            },
            Err(e) => reply_only(self.finish_read(conn_id, request, Err(e))),
        };
        assert(read_begun(old(self)@, self@, conn_id, request@, planned, step));
        step
    }

    /// Carries out a request for the next piece of an answer.
    fn handle_follow_on_command(&mut self, conn_id: u64, request: &Frame) -> (r: Vec<u8>)
        ensures
            old(self).wf() ==> final(self).wf(),
            follow_on_answered(old(self)@, final(self)@, conn_id, request@, r@),
    {
        if request.data.len() != 5 {
            return refuse(request, ErrorInfoWord::new(ErrorInfoWord::OTHER));
        }
        let di: [u8; 4] = [request.data[0], request.data[1], request.data[2], request.data[3]];
        assert(di@ =~= request.data@.take(4));
        let seq: u8 = request.data[4];
        match self.pending.next(conn_id, number_of_di(di), seq) {
            FollowOn::Nothing => refuse(request, ErrorInfoWord::new(ErrorInfoWord::NO_DATA)),
            FollowOn::WrongSequence => refuse(request, ErrorInfoWord::new(ErrorInfoWord::OTHER)),
            FollowOn::Piece { bytes, more } => {
                let mut data = to_vec(request.data.as_slice());
                append(&mut data, bytes.as_slice());
                let control: u8 = if more {
                    0xB2
                } else {
                    0x92
                };
                let frame = Frame { address: request.address, control, data };
                encode_frame(&frame)
            },
        }
    }

    /// Carries out a write of the address.
    fn handle_write_comm_address(&mut self, request: &Frame) -> (r: ProtocolStep)
        ensures
            old(self).wf() ==> final(self).wf(),
            address_written(old(self)@, final(self)@, request@, r),
    {
        if request.data.len() != 14 {
            return reply_only(refuse(request, ErrorInfoWord::new(ErrorInfoWord::OTHER)));
        }
        let level: u8 = request.data[6] / 16;
        let password: [u8; 3] = [request.data[7], request.data[8], request.data[9]];
        assert(password@ =~= request.data@.subrange(7, 10));
        if !self.meter.state().password_config.verify(level, &password) || level > 4 {
            return reply_only(refuse(request, ErrorInfoWord::new(ErrorInfoWord::PASSWORD_ERR)));
        }
        let new: [u8; 6] = [
            request.data[0],
            request.data[1],
            request.data[2],
            request.data[3],
            request.data[4],
            request.data[5],
        ];
        assert(new@ =~= request.data@.take(6));
        let old_address: [u8; 6] = self.meter.address();
        self.meter.state_mut().address = new;
        self.config.address = new;
        let frame = Frame { address: new, control: 0x95, data: to_vec(new.as_slice()) };
        ProtocolStep::Reply {
            bytes: encode_frame(&frame),
            moved: Some(RegistryMsg::UpdateAddress { old: old_address, new }),
        }
    }

    /// Carries out a command that acts on the state.
    fn handle_state_command(&mut self, request: &Frame, now: DateTime) -> (r: Vec<u8>)
        requires
            request.control % 32 != 0x11,
            request.control % 32 != 0x12,
            request.control % 32 != 0x15,
        ensures
            old(self).wf() ==> final(self).wf(),
            command_answered(
                old(self)@.meter.state,
                final(self)@.meter.state,
                request@,
                now,
                r@,
            ),
            final(self)@ == (ActorModel {
                meter: MeterModel { state: final(self)@.meter.state, ..old(self)@.meter },
                ..old(self)@
            }),
    {
        let data = request.data.as_slice();
        match function_of(request.control) {
            0x08 => {
                self.meter.handle_broadcast_time(data);
                Vec::new()
            },
            0x13 => {
                if data.len() > 0 {
                    return Vec::new();
                }
                let address: [u8; 6] = self.meter.address();
                encode_frame_raw(address, 0x93, address.as_slice())
            },
            0x14 => match self.meter.handle_write_command(data) {
                Ok(_) => acknowledge(request, 0x94),
                Err(e) => refuse(request, e.write_error_word()),
            },
            0x16 => match self.meter.handle_freeze_command(data) {
                Ok(_) => acknowledge(request, 0x96),
                Err(_) => refuse(request, ErrorInfoWord::new(ErrorInfoWord::OTHER)),
            },
            0x17 => match self.meter.handle_change_baudrate_command(data) {
                Ok(_) => acknowledge(request, 0x97),
                Err(_) => refuse(request, ErrorInfoWord::new(ErrorInfoWord::OTHER)),
            },
            0x18 => match self.meter.handle_change_password_at(data, now) {
                Ok(_) => acknowledge(request, 0x98),
                Err(e) => refuse(request, e.password_error_word()),
            },
            0x19 => match self.meter.handle_demand_clear_at(data, now) {
                Ok(_) => acknowledge(request, 0x99),
                Err(e) => refuse(request, e.clear_error_word()),
            },
            0x1A => match self.meter.handle_meter_clear_at(data, now) {
                Ok(_) => acknowledge(request, 0x9A),
                Err(e) => refuse(request, e.clear_error_word()),
            },
            0x1B => match self.meter.handle_event_clear_at(data, now) {
                Ok(_) => acknowledge(request, 0x9B),
                Err(e) => refuse(request, e.clear_error_word()),
            },
            _ => refuse(request, ErrorInfoWord::new(ErrorInfoWord::NO_DATA)),
        }
    }

    /// Carries out a command of the protocol that comes at time `now`.
    pub fn on_protocol_command_at(&mut self, conn_id: u64, request: &Frame, now: DateTime) -> (r:
        ProtocolStep)
        ensures
            old(self).wf() ==> final(self).wf(),
            protocol_done(old(self)@, final(self)@, conn_id, request@, now, r),
    {
        match function_of(request.control) {
            0x11 => self.handle_read_command(conn_id, request),
            0x12 => reply_only(self.handle_follow_on_command(conn_id, request)),
            0x15 => self.handle_write_comm_address(request),
            _ => reply_only(self.handle_state_command(request, now)),
        }
    }

    /// Carries out a command of the protocol.
    pub fn on_protocol_command(&mut self, conn_id: u64, request: &Frame) -> (r: ProtocolStep)
        ensures
            old(self).wf() ==> final(self).wf(),
            exists|now: DateTime| #[trigger]
                protocol_done(old(self)@, final(self)@, conn_id, request@, now, r),
    {
        self.on_protocol_command_at(conn_id, request, DateTime::now())
    }

    /// Answers a read of load records with the records that were found.
    pub fn finish_records(
        &mut self,
        conn_id: u64,
        request: &Frame,
        rows: &Vec<LoadRecordSample>,
    ) -> (r: Vec<u8>)
        requires
            request@.data.len() >= 4,
        ensures
            old(self).wf() ==> final(self).wf(),
            read_answered(
                old(self)@,
                final(self)@,
                conn_id,
                request@,
                records_outcome(request@.data.take(4), rows@),
                r@,
            ),
    {
        let di: [u8; 4] = [request.data[0], request.data[1], request.data[2], request.data[3]];
        assert(di@ =~= request.data@.take(4));
        let outcome = self.meter.answer_records(di, rows);
        self.finish_read(conn_id, request, outcome)
    }

    /// Carries out a command of the administration that comes at time `now`.
    pub fn on_admin_command_at(&mut self, cmd: AdminCommand, now: DateTime) -> (r: Result<
        AdminReply,
        AdminError,
    >)
        ensures
            old(self).wf() ==> final(self).wf(),
            admin_done(old(self)@.meter, final(self)@.meter, cmd, now, r),
            final(self)@ == (ActorModel { meter: final(self)@.meter, ..old(self)@ }),
    {
        administer(&mut self.meter, cmd, now)
    }

    /// Carries out a command of the administration.
    pub fn on_admin_command(&mut self, cmd: AdminCommand) -> (r: Result<AdminReply, AdminError>)
        ensures
            old(self).wf() ==> final(self).wf(),
            exists|now: DateTime| #[trigger]
                admin_done(old(self)@.meter, final(self)@.meter, cmd, now, r),
            final(self)@ == (ActorModel { meter: final(self)@.meter, ..old(self)@ }),
    {
        self.on_admin_command_at(cmd, DateTime::now())
    }

    /// Whether the meter can take a step of the common clock.
    pub fn can_tick(&self, tick: TickMsg) -> (r: bool)
        ensures
            r == can_step(
                self@.meter.engine,
                self@.meter.state,
                tick.wall_elapsed_nanos,
                meter_scale(self@, tick),
            ),
    {
        let scale: Quantity = product(tick.time_scale, self.meter.state().simulation_time_scale);
        self.meter.can_tick(tick.wall_elapsed_nanos, scale)
    }

    /// Takes a step of the common clock with the given noise. The meter's own time scale
    /// multiplies the common one.
    pub fn on_tick_with(
        &mut self,
        tick: TickMsg,
        noise: &Noise,
        seconds_since_flush: u64,
        now_ms: i64,
    ) -> (r: TickOutput)
        requires
            old(self).wf(),
            can_step(
                old(self)@.meter.engine,
                old(self)@.meter.state,
                tick.wall_elapsed_nanos,
                meter_scale(old(self)@, tick),
            ),
        ensures
            final(self).wf(),
            exists|simulated: MeterState, sampled: MeterState, samples: Seq<LoadRecordSample>|
                #[trigger]
                meter_stepped(
                    old(self)@.meter,
                    final(self)@.meter,
                    simulated_nanos(tick.wall_elapsed_nanos, meter_scale(old(self)@, tick)),
                    *noise,
                    seconds_since_flush,
                    now_ms,
                    r,
                    simulated,
                    sampled,
                    samples,
                ),
            final(self)@ == (ActorModel { meter: final(self)@.meter, ..old(self)@ }),
    {
        let scale: Quantity = product(tick.time_scale, self.meter.state().simulation_time_scale);
        self.meter.tick_with(tick.wall_elapsed_nanos, scale, noise, seconds_since_flush, now_ms)
    }

    /// Takes a step of the common clock with fresh noise.
    pub fn on_tick(&mut self, tick: TickMsg, seconds_since_flush: u64, now_ms: i64) -> (r:
        TickOutput)
        requires
            old(self).wf(),
            can_step(
                old(self)@.meter.engine,
                old(self)@.meter.state,
                tick.wall_elapsed_nanos,
                meter_scale(old(self)@, tick),
            ),
        ensures
            final(self).wf(),
            exists|
                noise: Noise,
                simulated: MeterState,
                sampled: MeterState,
                samples: Seq<LoadRecordSample>,
            |
                noise.in_range() && #[trigger] meter_stepped(
                    old(self)@.meter,
                    final(self)@.meter,
                    simulated_nanos(tick.wall_elapsed_nanos, meter_scale(old(self)@, tick)),
                    noise,
                    seconds_since_flush,
                    now_ms,
                    r,
                    simulated,
                    sampled,
                    samples,
                ),
            final(self)@ == (ActorModel { meter: final(self)@.meter, ..old(self)@ }),
    {
        let noise = Noise::draw();
        self.on_tick_with(tick, &noise, seconds_since_flush, now_ms)
    }
}

/// Where the password of a command stands, and the access level that it needs.
pub open spec fn access_of(function: u8) -> (int, u8) {
    if function == 0x14 || function == 0x19 {
        (4, 4)
    } else if function == 0x15 {
        (6, 4)
    } else {
        (0, 2)
    }
}

/// A write, a write of the address, or a clearing of demand, meter or events changes the
/// meter only under the right password of a sufficient access level.
pub proof fn law_change_needs_password(
    a0: ActorModel,
    a1: ActorModel,
    conn_id: u64,
    request: FrameModel,
    now: DateTime,
    step: ProtocolStep,
)
    requires
        protocol_done(a0, a1, conn_id, request, now, step),
        ({
            let f = request.control % 32;
            f == 0x14 || f == 0x15 || f == 0x19 || f == 0x1A || f == 0x1B
        }),
        a1 != a0,
    ensures
        ({
            let (at, needed) = access_of((request.control % 32) as u8);
            access_error(a0.meter.state, request.data, at, needed) is None
        }),
{
}

/// A password is changed only by one who knows a password: the old one of the level that the
/// command names.
pub proof fn law_password_change_needs_password(
    a0: ActorModel,
    a1: ActorModel,
    conn_id: u64,
    request: FrameModel,
    now: DateTime,
    step: ProtocolStep,
)
    requires
        protocol_done(a0, a1, conn_id, request, now, step),
        request.control % 32 == 0x18,
        a1 != a0,
    ensures
        request.data.len() == 12,
        a0.meter.state.password_config.accepts(
            level_of(request.data[4]),
            request.data.subrange(5, 8),
        ),
{
}

/// An address that was written is the one that a read of the address answers with.
pub proof fn law_written_address_is_read(
    a0: ActorModel,
    a1: ActorModel,
    write: FrameModel,
    written: ProtocolStep,
    a2: ActorModel,
    conn_id: u64,
    read: FrameModel,
    now: DateTime,
    step: ProtocolStep,
)
    requires
        address_written(a0, a1, write, written),
        address_write_word(a0.meter.state, write.data) is None,
        protocol_done(a1, a2, conn_id, read, now, step),
        read.control % 32 == 0x13,
        read.data.len() == 0,
    ensures
        replied(step, frame_bytes(write.data.take(6), 0x93, write.data.take(6))),
{
}

/// Reads, and requests for more of an answer or for the address, leave the meter as it is.
pub proof fn law_reads_leave_meter(
    a0: ActorModel,
    a1: ActorModel,
    conn_id: u64,
    request: FrameModel,
    now: DateTime,
    step: ProtocolStep,
)
    requires
        protocol_done(a0, a1, conn_id, request, now, step),
        0x11 <= request.control % 32 <= 0x13,
    ensures
        a1.meter == a0.meter,
        a1.config == a0.config,
{
}

/// Every answer to a read is a frame of at most 200 data bytes under the request's address.
pub proof fn law_read_answers_fit(
    a0: ActorModel,
    a1: ActorModel,
    conn_id: u64,
    request: FrameModel,
    outcome: Result<Seq<u8>, ReadError>,
    reply: Seq<u8>,
)
    requires
        read_answered(a0, a1, conn_id, request, outcome, reply),
        request.address.len() == 6,
        request.data.len() >= 4,
    ensures
        frame_error(reply) is None,
        decoded(reply).address == request.address,
        decoded(reply).data.len() <= 200,
{
    let di = request.data.take(4);
    match outcome {
        Ok(data) => {
            let (control, sent) = if data.len() <= 195 {
                (0x91u8, di + data)
            } else {
                (0xB1u8, di + fragment(data, 0))
            };
            lemma_answer_decodes(request, control, sent);
        },
        Err(e) => law_error_answer_decodes(request.address, request.control, e.word()),
    }
}

/// Every answer to a request for more is a frame of at most 200 data bytes under the
/// request's address.
pub proof fn law_follow_on_answers_fit(
    a0: ActorModel,
    a1: ActorModel,
    conn_id: u64,
    request: FrameModel,
    reply: Seq<u8>,
)
    requires
        follow_on_answered(a0, a1, conn_id, request, reply),
        request.address.len() == 6,
    ensures
        frame_error(reply) is None,
        decoded(reply).address == request.address,
        decoded(reply).data.len() <= 200,
{
    let key = (conn_id, di_number(request.data.take(4)));
    let p = a0.pending[key];
    law_error_answer_decodes(request.address, request.control, 0x01);
    law_error_answer_decodes(request.address, request.control, 0x02);
    if request.data.len() == 5 {
        let sent = request.data + fragment(p.data, p.sent);
        lemma_answer_decodes(request, 0xB2, sent);
        lemma_answer_decodes(request, 0x92, sent);
    }
}

proof fn lemma_answer_decodes(request: FrameModel, control: u8, data: Seq<u8>)
    requires
        request.address.len() == 6,
        data.len() <= 255,
    ensures
        frame_error(answer(request, control, data)) is None,
        decoded(answer(request, control, data)) == (FrameModel {
            address: request.address,
            control,
            data,
        }),
{
    let frame = FrameModel { address: request.address, control, data };
    law_frame_roundtrip(frame, Seq::empty());
    assert(encoded(frame) + Seq::<u8>::empty() =~= encoded(frame));
}

/// Once the first piece of a long answer has been sent, requests for the pieces one after
/// the other bring all of it: piece after piece, each marked as long as there is more, and
/// the pieces in a row are the answer. Nothing is kept afterwards.
pub proof fn law_long_answer_is_completed(
    data: Seq<u8>,
    conn_id: u64,
    di: Seq<u8>,
    actors: Seq<ActorModel>,
    requests: Seq<FrameModel>,
    replies: Seq<Seq<u8>>,
)
    requires
        di.len() == 4,
        actors.len() == requests.len() + 1,
        replies.len() == requests.len(),
        requests.len() >= 1,
        more_after(data, requests.len()),
        !more_after(data, requests.len() + 1),
        actors[0].pending.contains_key((conn_id, di_number(di))),
        actors[0].pending[(conn_id, di_number(di))] == (PendingModel { data, sent: 1 }),
        forall|k: int|
            0 <= k < requests.len() ==> (#[trigger] requests[k]).data == di.push(
                ((k + 1) % 256) as u8,
            ),
        forall|k: int|
            0 <= k < requests.len() ==> follow_on_answered(
                #[trigger] actors[k],
                actors[k + 1],
                conn_id,
                requests[k],
                replies[k],
            ),
    ensures
        forall|k: int|
            0 <= k < requests.len() ==> #[trigger] replies[k] == answer(
                requests[k],
                if k + 1 < requests.len() {
                    0xB2
                } else {
                    0x92
                },
                requests[k].data + fragment(data, (k + 1) as nat),
            ),
        joined(data, requests.len() + 1) == data,
        !actors.last().pending.contains_key((conn_id, di_number(di))),
{
    let n = requests.len() as int;
    law_pieces_make_answer(data, requests.len() + 1);
    assert forall|k: int| 0 <= k < n implies #[trigger] replies[k] == answer(
        requests[k],
        if k + 1 < n {
            0xB2
        } else {
            0x92
        },
        requests[k].data + fragment(data, (k + 1) as nat),
    ) by {
        lemma_pieces_follow(data, conn_id, di, actors, requests, replies, k);
    }
    lemma_pieces_follow(data, conn_id, di, actors, requests, replies, n - 1);
}

proof fn lemma_pieces_follow(
    data: Seq<u8>,
    conn_id: u64,
    di: Seq<u8>,
    actors: Seq<ActorModel>,
    requests: Seq<FrameModel>,
    replies: Seq<Seq<u8>>,
    k: int,
)
    requires
        di.len() == 4,
        actors.len() == requests.len() + 1,
        replies.len() == requests.len(),
        0 <= k < requests.len(),
        more_after(data, requests.len()),
        actors[0].pending.contains_key((conn_id, di_number(di))),
        actors[0].pending[(conn_id, di_number(di))] == (PendingModel { data, sent: 1 }),
        forall|k: int|
            0 <= k < requests.len() ==> (#[trigger] requests[k]).data == di.push(
                ((k + 1) % 256) as u8,
            ),
        forall|k: int|
            0 <= k < requests.len() ==> follow_on_answered(
                #[trigger] actors[k],
                actors[k + 1],
                conn_id,
                requests[k],
                replies[k],
            ),
    ensures
        actors[k].pending.contains_key((conn_id, di_number(di))),
        actors[k].pending[(conn_id, di_number(di))] == (PendingModel {
            data,
            sent: (k + 1) as nat,
        }),
        replies[k] == answer(
            requests[k],
            if more_after(data, (k + 2) as nat) {
                0xB2
            } else {
                0x92
            },
            requests[k].data + fragment(data, (k + 1) as nat),
        ),
        !more_after(data, (k + 2) as nat) ==> !actors[k + 1].pending.contains_key(
            (conn_id, di_number(di)),
        ),
    decreases k,
{
    if k > 0 {
        lemma_pieces_follow(data, conn_id, di, actors, requests, replies, k - 1);
        assert(requests[k - 1].data.take(4) =~= di);
        assert(follow_on_answered(
            actors[k - 1],
            actors[k],
            conn_id,
            requests[k - 1],
            replies[k - 1],
        ));
    }
    assert(requests[k].data.take(4) =~= di);
    assert(follow_on_answered(actors[k], actors[k + 1], conn_id, requests[k], replies[k]));
}

} // verus!
