//! The Microchip binding: one concrete plugin with its two message kinds.
//!
//! This is the deployment the runtime loops are bound to: a heartbeat /
//! chain conversation on the data plane, and a command pool driven from
//! the control plane.  Every operation is specified against the
//! mathematical models of the types and proved, including round-trip
//! fidelity of both codecs.

use vstd::prelude::*;
use vstd::bytes::lemma_auto_spec_u32_to_from_le_bytes;
use vstd::utf8::encode_utf8;
use crate::cli::{
    lemma_parse_request_at, lemma_parse_response_at, request_fits, response_fits,
    spec_parse_request, spec_parse_response, spec_ser_request, spec_ser_response, read_request,
    read_response, write_request, write_response, Request, RequestModel, Response, ResponseModel,
};
use crate::errors::CoreError;
use crate::plugins::{Plugin, PluginMessage, SystemMessage};
use crate::wire::{
    lemma_split3, lemma_parse_byte_at, lemma_parse_chunk_at, lemma_parse_string_at, read_byte,
    read_chunk, read_string, spec_parse_byte, spec_parse_chunk, spec_parse_string, spec_ser_byte,
    spec_ser_chunk, spec_ser_string, fits_u32, string_fits, write_byte, write_chunk, write_string,
};

verus! {

// ---------------------------------------------------------------------------
// Types and models
// ---------------------------------------------------------------------------

/// A queued command: the text to deliver and the targets it is meant for.
/// Owned exclusively by the command pool.
#[derive(Clone, Debug, PartialEq, Eq)]
pub struct MicrochipCommand {
    pub targets: Vec<String>,
    pub command: String,
}

/// The mathematical model of [`MicrochipCommand`].
pub struct CommandModel {
    pub targets: Seq<Seq<char>>,
    pub command: Seq<char>,
}

impl View for MicrochipCommand {
    type V = CommandModel;

    open spec fn view(&self) -> CommandModel {
        CommandModel { targets: self.targets.deep_view(), command: self.command@ }
    }
}

impl DeepView for MicrochipCommand {
    type V = CommandModel;

    open spec fn deep_view(&self) -> CommandModel {
        self.view()
    }
}

/// The data-plane message: an opaque payload plus source and destination
/// labels and an authentication tag.
#[derive(Clone, Debug, PartialEq, Eq)]
pub struct MicrochipPluginMessage {
    pub shellcode: Vec<u8>,
    pub source: String,
    pub destination: String,
    pub agency_key: Vec<u8>,
}

/// The mathematical model of [`MicrochipPluginMessage`].
pub struct PluginMessageModel {
    pub shellcode: Seq<u8>,
    pub source: Seq<char>,
    pub destination: Seq<char>,
    pub agency_key: Seq<u8>,
}

impl View for MicrochipPluginMessage {
    type V = PluginMessageModel;

    open spec fn view(&self) -> PluginMessageModel {
        PluginMessageModel {
            shellcode: self.shellcode@,
            source: self.source@,
            destination: self.destination@,
            agency_key: self.agency_key@,
        }
    }
}

/// The control-plane envelope: an origin tag and at most one of a request
/// or a response.
#[derive(Clone, Debug, PartialEq, Eq)]
pub struct MicrochipSystemMessage {
    pub ip: String,
    pub request: Option<Request>,
    pub response: Option<Response>,
}

/// The mathematical model of [`MicrochipSystemMessage`].
pub struct SystemMessageModel {
    pub ip: Seq<char>,
    pub request: Option<RequestModel>,
    pub response: Option<ResponseModel>,
}

impl View for MicrochipSystemMessage {
    type V = SystemMessageModel;

    open spec fn view(&self) -> SystemMessageModel {
        SystemMessageModel {
            ip: self.ip@,
            request: match &self.request {
                Some(r) => Some(r@),
                None => None,
            },
            response: match &self.response {
                Some(r) => Some(r@),
                None => None,
            },
        }
    }
}

/// The Microchip plugin state: the agent's key material, the shared
/// command pool, and the shutdown flag.  Once `shutdown` becomes true it
/// is never reset within the process lifetime.
#[derive(Clone, Debug, PartialEq, Eq)]
pub struct MicrochipPlugin {
    pub public_key: Vec<u8>,
    pub private_key: Vec<u8>,
    pub command_pool: Vec<MicrochipCommand>,
    pub shutdown: bool,
}

/// The mathematical model of [`MicrochipPlugin`].
pub struct PluginModel {
    pub public_key: Seq<u8>,
    pub private_key: Seq<u8>,
    pub command_pool: Seq<CommandModel>,
    pub shutdown: bool,
}

impl View for MicrochipPlugin {
    type V = PluginModel;

    open spec fn view(&self) -> PluginModel {
        PluginModel {
            public_key: self.public_key@,
            private_key: self.private_key@,
            command_pool: self.command_pool.deep_view(),
            shutdown: self.shutdown,
        }
    }
}

// ---------------------------------------------------------------------------
// Small executable helpers
// ---------------------------------------------------------------------------

/// A structural copy of a byte vector.
fn clone_bytes(v: &Vec<u8>) -> (r: Vec<u8>)
    ensures
        r@ == v@,
{
    let r = v.clone();
    proof {
        assert forall|i: int| 0 <= i < v@.len() implies r@[i] == v@[i] by {
            assert(vstd::pervasive::cloned::<u8>(v@[i], r@[i]));
        }
        assert(r@ =~= v@);
    }
    r
}

// ---------------------------------------------------------------------------
// Data-plane codec
// ---------------------------------------------------------------------------

/// True when a data-plane message can be represented on the wire.
pub open spec fn plugin_message_fits(m: PluginMessageModel) -> bool {
    fits_u32(m.shellcode.len()) && string_fits(m.source) && string_fits(m.destination) && fits_u32(
        m.agency_key.len(),
    )
}

/// A data-plane message on the wire: payload, source, destination, tag.
pub open spec fn spec_ser_plugin_message(m: PluginMessageModel) -> Seq<u8>
    recommends
        plugin_message_fits(m),
{
    spec_ser_chunk(m.shellcode) + spec_ser_string(m.source) + spec_ser_string(m.destination)
        + spec_ser_chunk(m.agency_key)
}

/// Parse a whole payload as one data-plane message; trailing bytes are
/// malformed.
pub open spec fn spec_de_plugin_message(bytes: Seq<u8>) -> Option<PluginMessageModel> {
    match spec_parse_chunk(bytes, 0) {
        Some((shellcode, p0)) => match spec_parse_string(bytes, p0) {
            Some((source, p1)) => match spec_parse_string(bytes, p1) {
                Some((destination, p2)) => match spec_parse_chunk(bytes, p2) {
                    Some((agency_key, p3)) => if p3 == bytes.len() {
                        Some(PluginMessageModel { shellcode, source, destination, agency_key })
                    } else {
                        None
                    },
                    None => None,
                },
                None => None,
            },
            None => None,
        },
        None => None,
    }
}

impl PluginMessage for MicrochipPluginMessage {
    open spec fn wf(m: PluginMessageModel) -> bool {
        plugin_message_fits(m)
    }

    open spec fn spec_ser(m: PluginMessageModel) -> Seq<u8> {
        spec_ser_plugin_message(m)
    }

    open spec fn spec_de(bytes: Seq<u8>) -> Option<PluginMessageModel> {
        spec_de_plugin_message(bytes)
    }

    open spec fn spec_binding() -> u64 {
        1
    }

    proof fn lemma_round_trip(m: PluginMessageModel) {
        lemma_auto_spec_u32_to_from_le_bytes();
        let buf = spec_ser_plugin_message(m);
        let s0 = spec_ser_chunk(m.shellcode);
        let s1 = spec_ser_string(m.source);
        let s2 = spec_ser_string(m.destination);
        let s3 = spec_ser_chunk(m.agency_key);
        let p0 = s0.len() as int;
        let p1 = p0 + s1.len();
        let p2 = p1 + s2.len();
        let p3 = p2 + s3.len();
        assert(buf =~= (s0 + s1 + s2) + s3);
        assert(buf.subrange(0, buf.len() as int) =~= buf);
        assert(((s0 + s1 + s2) + s3) + Seq::<u8>::empty() =~= (s0 + s1 + s2) + s3);
        lemma_split3(buf, 0, s0 + s1 + s2, s3, Seq::<u8>::empty());
        assert(buf.subrange(0, p2) =~= s0 + s1 + s2);
        lemma_split3(buf, 0, s0, s1, s2);
        assert(s0.len() == 4 + m.shellcode.len());
        assert(s1.len() == 4 + encode_utf8(m.source).len());
        assert(s2.len() == 4 + encode_utf8(m.destination).len());
        assert(s3.len() == 4 + m.agency_key.len());
        assert(buf.subrange(p2, p3) =~= s3) by {
            assert forall|i: int| 0 <= i < s3.len() implies buf.subrange(p2, p3)[i] == s3[i] by {
                assert(buf[p2 + i] == ((s0 + s1 + s2) + s3)[p2 + i]);
            }
        }
        lemma_parse_chunk_at(buf, 0, m.shellcode);
        lemma_parse_string_at(buf, p0, m.source);
        lemma_parse_string_at(buf, p1, m.destination);
        lemma_parse_chunk_at(buf, p2, m.agency_key);
    }

    fn serialize(&self) -> (r: Result<Vec<u8>, CoreError>) {
        let mut out: Vec<u8> = Vec::new();
        write_chunk(&mut out, self.shellcode.as_slice())?;
        write_string(&mut out, self.source.as_str())?;
        write_string(&mut out, self.destination.as_str())?;
        write_chunk(&mut out, self.agency_key.as_slice())?;
        proof {
            assert(out@ =~= spec_ser_plugin_message(self@));
        }
        Ok(out)
    }

    fn deserialize(bytes: Vec<u8>) -> (r: Result<Self, CoreError>) {
        let buf = bytes.as_slice();
        let (shellcode, p0) = read_chunk(buf, 0)?;
        let (source, p1) = read_string(buf, p0)?;
        let (destination, p2) = read_string(buf, p1)?;
        let (agency_key, p3) = read_chunk(buf, p2)?;
        if p3 != buf.len() {
            return Err(CoreError::DecodingError);
        }
        Ok(MicrochipPluginMessage { shellcode, source, destination, agency_key })
    }

    fn binding_id() -> (r: u64) {
        1
    }

    fn duplicate(&self) -> (r: Self) {
        MicrochipPluginMessage {
            shellcode: clone_bytes(&self.shellcode),
            source: self.source.clone(),
            destination: self.destination.clone(),
            agency_key: clone_bytes(&self.agency_key),
        }
    }
}

// ---------------------------------------------------------------------------
// Control-plane codec
// ---------------------------------------------------------------------------

/// True when a control-plane envelope can be represented on the wire.
pub open spec fn system_message_fits(m: SystemMessageModel) -> bool {
    string_fits(m.ip) && (match m.request {
        Some(r) => request_fits(r),
        None => true,
    }) && (match m.response {
        Some(r) => response_fits(r),
        None => true,
    })
}

/// An optional request on the wire: an absence byte, or a presence byte
/// followed by the request.
pub open spec fn spec_ser_opt_request(o: Option<RequestModel>) -> Seq<u8> {
    match o {
        None => spec_ser_byte(0),
        Some(r) => spec_ser_byte(1) + spec_ser_request(r),
    }
}

/// An optional response on the wire, in the same shape.
pub open spec fn spec_ser_opt_response(o: Option<ResponseModel>) -> Seq<u8> {
    match o {
        None => spec_ser_byte(0),
        Some(r) => spec_ser_byte(1) + spec_ser_response(r),
    }
}

/// Parse an optional request.
pub open spec fn spec_parse_opt_request(buf: Seq<u8>, pos: int) -> Option<
    (Option<RequestModel>, int),
> {
    match spec_parse_byte(buf, pos) {
        Some((tag, p0)) => if tag == 0 {
            Some((None, p0))
        } else if tag == 1 {
            match spec_parse_request(buf, p0) {
                Some((r, p1)) => Some((Some(r), p1)),
                None => None,
            }
        } else {
            None
        },
        None => None,
    }
}

/// Parse an optional response.
pub open spec fn spec_parse_opt_response(buf: Seq<u8>, pos: int) -> Option<
    (Option<ResponseModel>, int),
> {
    match spec_parse_byte(buf, pos) {
        Some((tag, p0)) => if tag == 0 {
            Some((None, p0))
        } else if tag == 1 {
            match spec_parse_response(buf, p0) {
                Some((r, p1)) => Some((Some(r), p1)),
                None => None,
            }
        } else {
            None
        },
        None => None,
    }
}

/// A control-plane envelope on the wire: origin tag, optional request,
/// optional response.
pub open spec fn spec_ser_system_message(m: SystemMessageModel) -> Seq<u8>
    recommends
        system_message_fits(m),
{
    spec_ser_string(m.ip) + spec_ser_opt_request(m.request) + spec_ser_opt_response(m.response)
}

/// Parse a whole payload as one control-plane envelope; trailing bytes are
/// malformed.
pub open spec fn spec_de_system_message(bytes: Seq<u8>) -> Option<SystemMessageModel> {
    match spec_parse_string(bytes, 0) {
        Some((ip, p0)) => match spec_parse_opt_request(bytes, p0) {
            Some((request, p1)) => match spec_parse_opt_response(bytes, p1) {
                Some((response, p2)) => if p2 == bytes.len() {
                    Some(SystemMessageModel { ip, request, response })
                } else {
                    None
                },
                None => None,
            },
            None => None,
        },
        None => None,
    }
}

/// Wherever a buffer holds a serialized optional request, the parser
/// recovers it.
proof fn lemma_parse_opt_request_at(buf: Seq<u8>, pos: int, o: Option<RequestModel>)
    requires
        match o {
            Some(r) => request_fits(r),
            None => true,
        },
        0 <= pos,
        pos + spec_ser_opt_request(o).len() <= buf.len(),
        buf.subrange(pos, pos + spec_ser_opt_request(o).len()) == spec_ser_opt_request(o),
    ensures
        spec_parse_opt_request(buf, pos) == Some((o, pos + spec_ser_opt_request(o).len())),
{
    match o {
        None => {
            lemma_parse_byte_at(buf, pos, 0);
        },
        Some(r) => {
            let s0 = spec_ser_byte(1);
            let s1 = spec_ser_request(r);
            assert(spec_ser_opt_request(o) =~= s0 + s1 + Seq::<u8>::empty());
            lemma_split3(buf, pos, s0, s1, Seq::<u8>::empty());
            lemma_parse_byte_at(buf, pos, 1);
            lemma_parse_request_at(buf, pos + 1, r);
        },
    }
}

/// Wherever a buffer holds a serialized optional response, the parser
/// recovers it.
proof fn lemma_parse_opt_response_at(buf: Seq<u8>, pos: int, o: Option<ResponseModel>)
    requires
        match o {
            Some(r) => response_fits(r),
            None => true,
        },
        0 <= pos,
        pos + spec_ser_opt_response(o).len() <= buf.len(),
        buf.subrange(pos, pos + spec_ser_opt_response(o).len()) == spec_ser_opt_response(o),
    ensures
        spec_parse_opt_response(buf, pos) == Some((o, pos + spec_ser_opt_response(o).len())),
{
    match o {
        None => {
            lemma_parse_byte_at(buf, pos, 0);
        },
        Some(r) => {
            let s0 = spec_ser_byte(1);
            let s1 = spec_ser_response(r);
            assert(spec_ser_opt_response(o) =~= s0 + s1 + Seq::<u8>::empty());
            lemma_split3(buf, pos, s0, s1, Seq::<u8>::empty());
            lemma_parse_byte_at(buf, pos, 1);
            lemma_parse_response_at(buf, pos + 1, r);
        },
    }
}

/// Write an optional request.
fn write_opt_request(out: &mut Vec<u8>, o: &Option<Request>) -> (r: Result<(), CoreError>)
    ensures
        match r {
            Ok(u) => (match o {
                Some(req) => request_fits(req@),
                None => true,
            }) && final(out)@ == old(out)@ + spec_ser_opt_request(
                match o {
                    Some(req) => Some(req@),
                    None => None,
                },
            ),
            Err(e) => e == CoreError::EncodingError && (match o {
                Some(req) => !request_fits(req@),
                None => false,
            }),
        },
{
    match o {
        None => {
            write_byte(out, 0);
            Ok(())
        },
        Some(req) => {
            write_byte(out, 1);
            write_request(out, req)?;
            proof {
                assert(out@ =~= old(out)@ + spec_ser_opt_request(Some(req@)));
            }
            Ok(())
        },
    }
}

/// Write an optional response.
fn write_opt_response(out: &mut Vec<u8>, o: &Option<Response>) -> (r: Result<(), CoreError>)
    ensures
        match r {
            Ok(u) => (match o {
                Some(resp) => response_fits(resp@),
                None => true,
            }) && final(out)@ == old(out)@ + spec_ser_opt_response(
                match o {
                    Some(resp) => Some(resp@),
                    None => None,
                },
            ),
            Err(e) => e == CoreError::EncodingError && (match o {
                Some(resp) => !response_fits(resp@),
                None => false,
            }),
        },
{
    match o {
        None => {
            write_byte(out, 0);
            Ok(())
        },
        Some(resp) => {
            write_byte(out, 1);
            write_response(out, resp)?;
            proof {
                assert(out@ =~= old(out)@ + spec_ser_opt_response(Some(resp@)));
            }
            Ok(())
        },
    }
}

/// Read an optional request.
fn read_opt_request(buf: &[u8], pos: usize) -> (r: Result<(Option<Request>, usize), CoreError>)
    ensures
        match r {
            Ok((o, p)) => spec_parse_opt_request(buf@, pos as int) == Some(
                (
                    match o {
                        Some(req) => Some(req@),
                        None => None,
                    },
                    p as int,
                ),
            ),
            Err(e) => e == CoreError::DecodingError && spec_parse_opt_request(buf@, pos as int)
                is None,
        },
{
    let (tag, p0) = read_byte(buf, pos)?;
    if tag == 0 {
        Ok((None, p0))
    } else if tag == 1 {
        let (req, p1) = read_request(buf, p0)?;
        Ok((Some(req), p1))
    } else {
        Err(CoreError::DecodingError)
    }
}

/// Read an optional response.
fn read_opt_response(buf: &[u8], pos: usize) -> (r: Result<(Option<Response>, usize), CoreError>)
    ensures
        match r {
            Ok((o, p)) => spec_parse_opt_response(buf@, pos as int) == Some(
                (
                    match o {
                        Some(resp) => Some(resp@),
                        None => None,
                    },
                    p as int,
                ),
            ),
            Err(e) => e == CoreError::DecodingError && spec_parse_opt_response(buf@, pos as int)
                is None,
        },
{
    let (tag, p0) = read_byte(buf, pos)?;
    if tag == 0 {
        Ok((None, p0))
    } else if tag == 1 {
        let (resp, p1) = read_response(buf, p0)?;
        Ok((Some(resp), p1))
    } else {
        Err(CoreError::DecodingError)
    }
}

impl SystemMessage for MicrochipSystemMessage {
    open spec fn wf(m: SystemMessageModel) -> bool {
        system_message_fits(m)
    }

    open spec fn spec_ser(m: SystemMessageModel) -> Seq<u8> {
        spec_ser_system_message(m)
    }

    open spec fn spec_de(bytes: Seq<u8>) -> Option<SystemMessageModel> {
        spec_de_system_message(bytes)
    }

    open spec fn spec_generate(request: RequestModel) -> SystemMessageModel {
        SystemMessageModel { ip: "Tempestarii"@, request: Some(request), response: None }
    }

    open spec fn spec_binding() -> u64 {
        2
    }

    proof fn lemma_round_trip(m: SystemMessageModel) {
        lemma_auto_spec_u32_to_from_le_bytes();
        let buf = spec_ser_system_message(m);
        let s0 = spec_ser_string(m.ip);
        let s1 = spec_ser_opt_request(m.request);
        let s2 = spec_ser_opt_response(m.response);
        assert(buf =~= s0 + s1 + s2);
        assert(buf.subrange(0, buf.len() as int) =~= buf);
        lemma_split3(buf, 0, s0, s1, s2);
        assert(s0.len() == 4 + encode_utf8(m.ip).len());
        lemma_parse_string_at(buf, 0, m.ip);
        lemma_parse_opt_request_at(buf, s0.len() as int, m.request);
        lemma_parse_opt_response_at(buf, (s0.len() + s1.len()) as int, m.response);
    }

    fn serialize(&self) -> (r: Result<Vec<u8>, CoreError>) {
        let mut out: Vec<u8> = Vec::new();
        write_string(&mut out, self.ip.as_str())?;
        write_opt_request(&mut out, &self.request)?;
        write_opt_response(&mut out, &self.response)?;
        proof {
            assert(out@ =~= spec_ser_system_message(self@));
        }
        Ok(out)
    }

    fn deserialize(bytes: Vec<u8>) -> (r: Result<Self, CoreError>) {
        let buf = bytes.as_slice();
        let (ip, p0) = read_string(buf, 0)?;
        let (request, p1) = read_opt_request(buf, p0)?;
        let (response, p2) = read_opt_response(buf, p1)?;
        if p2 != buf.len() {
            return Err(CoreError::DecodingError);
        }
        Ok(MicrochipSystemMessage { ip, request, response })
    }

    fn generate(request: Request) -> (r: Result<Self, CoreError>)
        ensures
            r is Ok,
            r matches Ok(m) ==> m@ == Self::spec_generate(request@),
    {
        Ok(
            MicrochipSystemMessage {
                ip: "Tempestarii".to_owned(),
                request: Some(request),
                response: None,
            },
        )
    }

    fn binding_id() -> (r: u64) {
        2
    }
}

// ---------------------------------------------------------------------------
// Structural copies
// ---------------------------------------------------------------------------

/// A structural copy of a vector of strings.
fn clone_strings(v: &Vec<String>) -> (r: Vec<String>)
    ensures
        r@ == v@,
{
    let r = v.clone();
    proof {
        assert forall|i: int| 0 <= i < v@.len() implies r@[i] == v@[i] by {
            assert(vstd::pervasive::cloned::<String>(v@[i], r@[i]));
        }
        assert(r@ =~= v@);
    }
    r
}

// ---------------------------------------------------------------------------
// Command pool operations
// ---------------------------------------------------------------------------

/// Does any of the named targets occur in the target list of a command?
fn targets_contain(ts: &Vec<String>, t: &String) -> (r: bool)
    ensures
        r == ts.deep_view().contains(t@),
{
    let mut i: usize = 0;
    while i < ts.len()
        invariant
            i <= ts.len(),
            forall|j: int| 0 <= j < i ==> ts.deep_view()[j] != t@,
        decreases ts.len() - i,
    {
        if ts[i] == *t {
            proof {
                assert(ts.deep_view()[i as int] == ts@[i as int]@);
                assert(ts.deep_view().contains(t@));
            }
            return true;
        }
        i = i + 1;
    }
    proof {
        assert(!ts.deep_view().contains(t@));
    }
    false
}

/// The commands of the pool whose target set contains the given target,
/// in insertion order.
pub open spec fn spec_filter_commands(pool: Seq<CommandModel>, target: Seq<char>) -> Seq<Seq<char>>
    decreases pool.len(),
{
    if pool.len() == 0 {
        Seq::empty()
    } else {
        let init = spec_filter_commands(pool.drop_last(), target);
        if pool.last().targets.contains(target) {
            init.push(pool.last().command)
        } else {
            init
        }
    }
}

/// Select, in insertion order, the text of every pooled command whose
/// target set contains the given target.
pub fn filter_commands_by_target(command_pool: &[MicrochipCommand], target: String) -> (r: Result<
    Vec<String>,
    CoreError,
>)
    ensures
        r matches Ok(v) && v.deep_view() == spec_filter_commands(command_pool.deep_view(), target@),
{
    let mut out: Vec<String> = Vec::new();
    let mut i: usize = 0;
    while i < command_pool.len()
        invariant
            i <= command_pool.len(),
            out.deep_view() == spec_filter_commands(
                command_pool.deep_view().take(i as int),
                target@,
            ),
        decreases command_pool.len() - i,
    {
        let ghost pre = out.deep_view();
        let ghost pool_view = command_pool.deep_view();
        let c = vstd::slice::slice_index_get(command_pool, i);
        proof {
            assert(pool_view.take(i + 1).drop_last() =~= pool_view.take(i as int));
            assert(pool_view.take(i + 1).last() == pool_view[i as int]);
            assert(pool_view[i as int] == c@);
        }
        if targets_contain(&c.targets, &target) {
            proof {
                assert(c@.targets.contains(target@));
            }
            out.push(c.command.clone());
            proof {
                assert(out.deep_view() =~= pre.push(c@.command));
            }
        }
        i = i + 1;
    }
    proof {
        assert(command_pool.deep_view().take(command_pool.deep_view().len() as int)
            =~= command_pool.deep_view());
    }
    Ok(out)
}

/// For each requested target in order, the commands queued for it, in
/// insertion order, concatenated without de-duplication.
pub open spec fn spec_list_commands(pool: Seq<CommandModel>, targets: Seq<Seq<char>>) -> Seq<
    Seq<char>,
>
    decreases targets.len(),
{
    if targets.len() == 0 {
        Seq::empty()
    } else {
        spec_list_commands(pool, targets.drop_last()) + spec_filter_commands(pool, targets.last())
    }
}

/// Collect the commands for each requested target, in request order.
fn list_commands(pool: &Vec<MicrochipCommand>, targets: &Vec<String>) -> (r: Result<
    Vec<String>,
    CoreError,
>)
    ensures
        r matches Ok(v) && v.deep_view() == spec_list_commands(
            pool.deep_view(),
            targets.deep_view(),
        ),
{
    let mut out: Vec<String> = Vec::new();
    let mut i: usize = 0;
    while i < targets.len()
        invariant
            i <= targets.len(),
            out.deep_view() == spec_list_commands(
                pool.deep_view(),
                targets.deep_view().take(i as int),
            ),
        decreases targets.len() - i,
    {
        let ghost pre = out.deep_view();
        let ghost targets_view = targets.deep_view();
        proof {
            assert(targets_view.take(i + 1).drop_last() =~= targets_view.take(i as int));
            assert(targets_view.take(i + 1).last() == targets_view[i as int]);
            assert(targets_view[i as int] == targets@[i as int]@);
        }
        let target = targets[i].clone();
        let mut filtered = match filter_commands_by_target(pool.as_slice(), target) {
            Ok(v) => v,
            Err(e) => {
                return Err(e);
            },
        };
        let ghost filtered_view = filtered.deep_view();
        out.append(&mut filtered);
        proof {
            assert(out.deep_view() =~= pre + filtered_view);
        }
        i = i + 1;
    }
    proof {
        assert(targets.deep_view().take(targets.deep_view().len() as int)
            =~= targets.deep_view());
    }
    Ok(out)
}

/// The fixed retraction policy: a pooled command is retracted when its
/// text equals the request's text and its target set shares at least one
/// target with the request's target list.
pub open spec fn spec_command_matches(
    c: CommandModel,
    command: Seq<char>,
    targets: Seq<Seq<char>>,
) -> bool {
    c.command == command && (exists|i: int|
        0 <= i < targets.len() && c.targets.contains(#[trigger] targets[i]))
}

/// The pool after retracting every matching command, keeping the rest in
/// insertion order.
pub open spec fn spec_dequeue_commands(
    pool: Seq<CommandModel>,
    command: Seq<char>,
    targets: Seq<Seq<char>>,
) -> Seq<CommandModel>
    decreases pool.len(),
{
    if pool.len() == 0 {
        Seq::empty()
    } else {
        let init = spec_dequeue_commands(pool.drop_last(), command, targets);
        if spec_command_matches(pool.last(), command, targets) {
            init
        } else {
            init.push(pool.last())
        }
    }
}

/// Does the command's target set share a target with the request's list?
fn shares_target(cts: &Vec<String>, targets: &Vec<String>) -> (r: bool)
    ensures
        r == (exists|i: int|
            0 <= i < targets.deep_view().len() && cts.deep_view().contains(
                #[trigger] targets.deep_view()[i],
            )),
{
    let mut i: usize = 0;
    while i < targets.len()
        invariant
            i <= targets.len(),
            forall|j: int| 0 <= j < i ==> !cts.deep_view().contains(
                #[trigger] targets.deep_view()[j],
            ),
        decreases targets.len() - i,
    {
        proof {
            assert(targets.deep_view()[i as int] == targets@[i as int]@);
        }
        if targets_contain(cts, &targets[i]) {
            return true;
        }
        i = i + 1;
    }
    false
}

/// Does this command match the retraction request?
fn command_matches(c: &MicrochipCommand, command: &String, targets: &Vec<String>) -> (r: bool)
    ensures
        r == spec_command_matches(c@, command@, targets.deep_view()),
{
    if c.command == *command {
        shares_target(&c.targets, targets)
    } else {
        false
    }
}

/// The pool with every matching command retracted.
fn dequeue_commands(
    pool: &Vec<MicrochipCommand>,
    command: &String,
    targets: &Vec<String>,
) -> (r: Vec<MicrochipCommand>)
    ensures
        r.deep_view() == spec_dequeue_commands(pool.deep_view(), command@, targets.deep_view()),
{
    let mut out: Vec<MicrochipCommand> = Vec::new();
    let mut i: usize = 0;
    while i < pool.len()
        invariant
            i <= pool.len(),
            out.deep_view() == spec_dequeue_commands(
                pool.deep_view().take(i as int),
                command@,
                targets.deep_view(),
            ),
        decreases pool.len() - i,
    {
        let ghost pre = out.deep_view();
        let ghost pool_view = pool.deep_view();
        proof {
            assert(pool_view.take(i + 1).drop_last() =~= pool_view.take(i as int));
            assert(pool_view.take(i + 1).last() == pool_view[i as int]);
            assert(pool_view[i as int] == pool@[i as int]@);
        }
        if !command_matches(&pool[i], command, targets) {
            let kept = MicrochipCommand {
                targets: clone_strings(&pool[i].targets),
                command: pool[i].command.clone(),
            };
            proof {
                assert(kept@.targets =~= pool@[i as int]@.targets);
                assert(kept@ == pool_view[i as int]);
            }
            out.push(kept);
            proof {
                assert(out.deep_view() =~= pre.push(pool_view[i as int]));
            }
        }
        i = i + 1;
    }
    proof {
        assert(pool.deep_view().take(pool.deep_view().len() as int) =~= pool.deep_view());
    }
    out
}

// ---------------------------------------------------------------------------
// The Microchip plugin
// ---------------------------------------------------------------------------

/// The placeholder target echoed in every control-plane confirmation.
pub open spec fn spec_placeholder_target() -> crate::cli::TargetModel {
    crate::cli::TargetModel {
        code: crate::cli::TargetCode::ALL,
        location: "Nowhere Good"@,
        target_number: 1,
        target_name: "Chase K's House"@,
        locked: false,
    }
}

/// The envelope every pool operation answers with: origin tag, no request,
/// and a response carrying the confirmation and command list.
pub open spec fn spec_pool_reply(
    confirmation: Seq<char>,
    commands: Seq<Seq<char>>,
) -> SystemMessageModel {
    SystemMessageModel {
        ip: "Storm"@,
        request: None,
        response: Some(
            ResponseModel { confirmation, commands, targets: seq![spec_placeholder_target()] },
        ),
    }
}

/// What the pool handler does: the plugin state after the operation and
/// the reply envelope, for each request kind.
pub open spec fn spec_pool_handler(p: PluginModel, m: SystemMessageModel) -> (
    PluginModel,
    SystemMessageModel,
) {
    match m.request {
        Some(req) => match req {
            RequestModel::QUEUE(q) => (
                PluginModel {
                    public_key: p.public_key,
                    private_key: p.private_key,
                    command_pool: p.command_pool.push(
                        CommandModel { targets: q.targets, command: q.command },
                    ),
                    shutdown: p.shutdown,
                },
                spec_pool_reply("Command Registered Successfully"@, seq![q.command]),
            ),
            RequestModel::DEQUEUE(d) => (
                PluginModel {
                    public_key: p.public_key,
                    private_key: p.private_key,
                    command_pool: spec_dequeue_commands(p.command_pool, d.command, d.targets),
                    shutdown: p.shutdown,
                },
                spec_pool_reply("Command Unregistered Successfully"@, seq![d.command]),
            ),
            RequestModel::LOCK(l) => (p, spec_pool_reply("Target Status Locked"@, Seq::empty())),
            RequestModel::LIST(l) => (
                p,
                spec_pool_reply(
                    "Request For Targeted Commands Successful"@,
                    spec_list_commands(p.command_pool, l.targets),
                ),
            ),
            RequestModel::QUIT(q) => (
                PluginModel {
                    public_key: p.public_key,
                    private_key: p.private_key,
                    command_pool: p.command_pool,
                    shutdown: true,
                },
                spec_pool_reply(
                    if q.destroy {
                        "Triggering Massive Destruction of Infrastructure"@
                    } else {
                        "Triggering Quiet Closure"@
                    },
                    Seq::empty(),
                ),
            ),
        },
        None => (p, SystemMessageModel { ip: "Storm"@, request: None, response: None }),
    }
}

/// The placeholder target list of every confirmation.
fn placeholder_targets() -> (r: Vec<crate::cli::AirportCodes>)
    ensures
        r.deep_view() == seq![spec_placeholder_target()],
{
    let mut v: Vec<crate::cli::AirportCodes> = Vec::new();
    v.push(
        crate::cli::AirportCodes::ALL {
            location: "Nowhere Good".to_owned(),
            target_number: 1,
            target_name: "Chase K's House".to_owned(),
            locked: false,
        },
    );
    proof {
        assert(v.deep_view() =~= seq![spec_placeholder_target()]);
    }
    v
}

/// Build the reply envelope for a pool operation.
fn pool_reply(confirmation: &str, commands: Vec<String>) -> (r: MicrochipSystemMessage)
    ensures
        r@ == spec_pool_reply(confirmation@, commands.deep_view()),
{
    MicrochipSystemMessage {
        ip: "Storm".to_owned(),
        request: None,
        response: Some(
            Response {
                confirmation: confirmation.to_owned(),
                commands,
                targets: placeholder_targets(),
            },
        ),
    }
}

impl Plugin for MicrochipPlugin {
    type PluginMessage = MicrochipPluginMessage;

    type SystemMessage = MicrochipSystemMessage;

    open spec fn spec_heartbeat(&self) -> PluginMessageModel {
        PluginMessageModel {
            shellcode: Seq::empty(),
            source: ""@,
            destination: "Tempestarii"@,
            agency_key: Seq::empty(),
        }
    }

    open spec fn spec_agent_step(&self, message: PluginMessageModel) -> Option<PluginMessageModel> {
        if message.agency_key == seq![1u8, 2u8, 3u8] {
            Some(
                PluginMessageModel {
                    shellcode: Seq::empty(),
                    source: "Agent 1"@,
                    destination: "Server 1"@,
                    agency_key: seq![3u8, 2u8, 1u8],
                },
            )
        } else {
            None
        }
    }

    open spec fn spec_server_step(&self, message: PluginMessageModel) -> PluginMessageModel {
        PluginMessageModel {
            shellcode: Seq::empty(),
            source: "Server 1"@,
            destination: "Agent 1"@,
            agency_key: if message.destination == "Tempestarii"@ {
                seq![1u8, 2u8, 3u8]
            } else {
                Seq::empty()
            },
        }
    }

    open spec fn spec_shutdown(&self) -> bool {
        self.shutdown
    }

    fn generate_heartbeat(&self) -> (r: Result<MicrochipPluginMessage, CoreError>)
        ensures
            r is Ok,
            r matches Ok(m) ==> m@ == self.spec_heartbeat(),
    {
        Ok(
            MicrochipPluginMessage {
                shellcode: Vec::new(),
                source: "".to_owned(),
                destination: "Tempestarii".to_owned(),
                agency_key: Vec::new(),
            },
        )
    }

    fn agent_runtime(&self, message: MicrochipPluginMessage) -> (r: Result<
        Option<MicrochipPluginMessage>,
        CoreError,
    >)
        ensures
            r is Ok,
            match r {
                Ok(next) => match next {
                    Some(m) => self.spec_agent_step(message@) == Some(m@),
                    None => self.spec_agent_step(message@) is None,
                },
                Err(e) => false,
            },
    {
        if is_handshake_key(&message.agency_key) {
            let mut key: Vec<u8> = Vec::new();
            key.push(3);
            key.push(2);
            key.push(1);
            proof {
                assert(key@ =~= seq![3u8, 2u8, 1u8]);
            }
            Ok(
                Some(
                    MicrochipPluginMessage {
                        shellcode: Vec::new(),
                        source: "Agent 1".to_owned(),
                        destination: "Server 1".to_owned(),
                        agency_key: key,
                    },
                ),
            )
        } else {
            Ok(None)
        }
    }

    fn server_runtime(&self, message: MicrochipPluginMessage) -> (r: Result<
        MicrochipPluginMessage,
        CoreError,
    >)
        ensures
            r is Ok,
            r matches Ok(reply) ==> reply@ == self.spec_server_step(message@),
    {
        let expected: String = "Tempestarii".to_owned();
        if message.destination == expected {
            let mut key: Vec<u8> = Vec::new();
            key.push(1);
            key.push(2);
            key.push(3);
            proof {
                assert(key@ =~= seq![1u8, 2u8, 3u8]);
            }
            Ok(
                MicrochipPluginMessage {
                    shellcode: Vec::new(),
                    source: "Server 1".to_owned(),
                    destination: "Agent 1".to_owned(),
                    agency_key: key,
                },
            )
        } else {
            Ok(
                MicrochipPluginMessage {
                    shellcode: Vec::new(),
                    source: "Server 1".to_owned(),
                    destination: "Agent 1".to_owned(),
                    agency_key: Vec::new(),
                },
            )
        }
    }

    fn pool_handler(&mut self, message: MicrochipSystemMessage) -> (r: Result<
        MicrochipSystemMessage,
        CoreError,
    >)
        ensures
            r is Ok,
            final(self)@ == spec_pool_handler(old(self)@, message@).0,
            r matches Ok(reply) ==> reply@ == spec_pool_handler(old(self)@, message@).1,
    {
        match message.request {
            Some(request) => match request {
                Request::QUEUE(state) => {
                    let ghost pre = self.command_pool.deep_view();
                    let command_text = state.command.clone();
                    self.command_pool.push(
                        MicrochipCommand { targets: state.targets, command: state.command },
                    );
                    proof {
                        assert(self.command_pool.deep_view() =~= pre.push(
                            spec_pool_handler(old(self)@, message@).0.command_pool.last(),
                        ));
                    }
                    let mut commands: Vec<String> = Vec::new();
                    commands.push(command_text);
                    proof {
                        assert(commands.deep_view() =~= seq![
                            spec_pool_handler(old(self)@, message@).1.response.unwrap().commands[0],
                        ]);
                    }
                    Ok(pool_reply("Command Registered Successfully", commands))
                },
                Request::DEQUEUE(state) => {
                    let new_pool = dequeue_commands(
                        &self.command_pool,
                        &state.command,
                        &state.targets,
                    );
                    self.command_pool = new_pool;
                    let mut commands: Vec<String> = Vec::new();
                    commands.push(state.command);
                    proof {
                        assert(commands.deep_view() =~= seq![
                            spec_pool_handler(old(self)@, message@).1.response.unwrap().commands[0],
                        ]);
                    }
                    Ok(pool_reply("Command Unregistered Successfully", commands))
                },
                Request::LOCK(state) => {
                    // Lock is a declared capability: it confirms, but no
                    // enforcement is wired into the delivery paths.
                    let commands: Vec<String> = Vec::new();
                    proof {
                        assert(commands.deep_view() =~= Seq::<Seq<char>>::empty());
                    }
                    Ok(pool_reply("Target Status Locked", commands))
                },
                Request::LIST(state) => {
                    let commands = match list_commands(&self.command_pool, &state.targets) {
                        Ok(v) => v,
                        Err(e) => {
                            return Err(e);
                        },
                    };
                    Ok(pool_reply("Request For Targeted Commands Successful", commands))
                },
                Request::QUIT(state) => {
                    self.shutdown = true;
                    let commands: Vec<String> = Vec::new();
                    proof {
                        assert(commands.deep_view() =~= Seq::<Seq<char>>::empty());
                    }
                    if state.destroy {
                        Ok(pool_reply("Triggering Massive Destruction of Infrastructure", commands))
                    } else {
                        Ok(pool_reply("Triggering Quiet Closure", commands))
                    }
                },
            },
            None => {
                Ok(MicrochipSystemMessage { ip: "Storm".to_owned(), request: None, response: None })
            },
        }
    }

    fn shutdown_check(&self) -> (r: Result<bool, CoreError>)
        ensures
            r is Ok,
            r matches Ok(b) ==> b == self.spec_shutdown(),
    {
        Ok(self.shutdown)
    }
}

/// The server's reply to any datagram can always be represented on the
/// wire: its labels are short ASCII text, its payload is empty and its
/// tag holds at most three bytes.
pub proof fn lemma_server_reply_fits(plugin: &MicrochipPlugin, m: PluginMessageModel)
    ensures
        plugin_message_fits(plugin.spec_server_step(m)),
{
    reveal_strlit("Server 1");
    reveal_strlit("Agent 1");
    assert(vstd::utf8::is_ascii_chars("Server 1"@));
    assert(vstd::utf8::is_ascii_chars("Agent 1"@));
    vstd::utf8::is_ascii_chars_encode_utf8("Server 1"@);
    vstd::utf8::is_ascii_chars_encode_utf8("Agent 1"@);
}

// ---------------------------------------------------------------------------
// Display text
// ---------------------------------------------------------------------------

/// The lower-case hex digit for a value below sixteen.
pub open spec fn spec_hex_digit(n: u8) -> char
    recommends
        n < 16,
{
    "0123456789abcdef"@[n as int]
}

/// The lower-case hex rendering of a byte sequence, two digits per byte.
pub open spec fn spec_hex(bytes: Seq<u8>) -> Seq<char>
    decreases bytes.len(),
{
    if bytes.len() == 0 {
        Seq::empty()
    } else {
        spec_hex(bytes.drop_last()) + seq![
            spec_hex_digit(bytes.last() >> 4),
            spec_hex_digit(bytes.last() & 0xf),
        ]
    }
}

/// Render a byte sequence as lower-case hex, two digits per byte.
pub fn hex_string(bytes: &Vec<u8>) -> (r: String)
    ensures
        r@ == spec_hex(bytes@),
{
    let alphabet = "0123456789abcdef";
    proof {
        reveal_strlit("0123456789abcdef");
    }
    let mut out = String::new();
    let mut i: usize = 0;
    while i < bytes.len()
        invariant
            i <= bytes.len(),
            alphabet@ == "0123456789abcdef"@,
            alphabet@.len() == 16,
            out@ == spec_hex(bytes@.take(i as int)),
        decreases bytes.len() - i,
    {
        let b = bytes[i];
        let hi = b >> 4;
        let lo = b & 0xf;
        proof {
            assert(b >> 4 < 16 && b & 0xf < 16) by (bit_vector);
            assert(bytes@.take(i + 1).drop_last() =~= bytes@.take(i as int));
            assert(bytes@.take(i + 1).last() == bytes@[i as int]);
        }
        let ghost pre = out@;
        out.append(alphabet.substring_char(hi as usize, hi as usize + 1));
        out.append(alphabet.substring_char(lo as usize, lo as usize + 1));
        proof {
            assert(alphabet@.subrange(hi as int, hi as int + 1) =~= seq![spec_hex_digit(hi)]);
            assert(alphabet@.subrange(lo as int, lo as int + 1) =~= seq![spec_hex_digit(lo)]);
            assert(out@ =~= pre + seq![spec_hex_digit(hi), spec_hex_digit(lo)]);
        }
        i = i + 1;
    }
    proof {
        assert(bytes@.take(bytes@.len() as int) =~= bytes@);
    }
    out
}

/// The display text of a data-plane message: its labels, and its payload
/// and tag rendered as hex.
pub open spec fn spec_display_plugin_message(m: PluginMessageModel) -> Seq<char> {
    "MicrochipPluginMessage:\n\tSource: "@ + m.source + "\n\tDestination: "@ + m.destination
        + "\n\tShellcode (hex): "@ + spec_hex(m.shellcode) + "\n\tAgency Key (hex): "@ + spec_hex(
        m.agency_key,
    )
}

impl MicrochipPluginMessage {
    /// Render the message for an operator: labels in the clear, payload
    /// and tag as hex.
    pub fn display_string(&self) -> (r: String)
        ensures
            r@ == spec_display_plugin_message(self@),
    {
        let mut out = String::new();
        out.append("MicrochipPluginMessage:\n\tSource: ");
        out.append(self.source.as_str());
        out.append("\n\tDestination: ");
        out.append(self.destination.as_str());
        out.append("\n\tShellcode (hex): ");
        let shellcode_hex = hex_string(&self.shellcode);
        out.append(shellcode_hex.as_str());
        out.append("\n\tAgency Key (hex): ");
        let agency_key_hex = hex_string(&self.agency_key);
        out.append(agency_key_hex.as_str());
        proof {
            assert(out@ =~= spec_display_plugin_message(self@));
        }
        out
    }
}

// ---------------------------------------------------------------------------
// Laws of the command pool
// ---------------------------------------------------------------------------

/// The pool after a sequence of queue requests, each wrapped in the
/// envelope the controller generates and applied one after another, as
/// the exclusive-writer discipline of the control plane serializes them.
pub open spec fn spec_queue_all(p: PluginModel, cmds: Seq<CommandModel>) -> PluginModel
    decreases cmds.len(),
{
    if cmds.len() == 0 {
        p
    } else {
        let envelope = MicrochipSystemMessage::spec_generate(
            RequestModel::QUEUE(
                crate::cli::QueueModel { command: cmds[0].command, targets: cmds[0].targets },
            ),
        );
        spec_queue_all(spec_pool_handler(p, envelope).0, cmds.drop_first())
    }
}

/// No lost updates: however many queue requests run against the pool,
/// serialized by the exclusive-writer discipline, the pool afterwards
/// holds exactly the prior commands followed by every queued command,
/// each present exactly once, in order; nothing else of the plugin
/// changes.  Against an empty pool, the pool afterwards is exactly the
/// queued commands.
pub proof fn lemma_queue_no_lost_updates(p: PluginModel, cmds: Seq<CommandModel>)
    ensures
        spec_queue_all(p, cmds).command_pool == p.command_pool + cmds,
        spec_queue_all(p, cmds).shutdown == p.shutdown,
        spec_queue_all(p, cmds).public_key == p.public_key,
        spec_queue_all(p, cmds).private_key == p.private_key,
    decreases cmds.len(),
{
    if cmds.len() == 0 {
        assert(p.command_pool + cmds =~= p.command_pool);
    } else {
        let envelope = MicrochipSystemMessage::spec_generate(
            RequestModel::QUEUE(
                crate::cli::QueueModel { command: cmds[0].command, targets: cmds[0].targets },
            ),
        );
        let q = spec_pool_handler(p, envelope).0;
        assert(q.command_pool == p.command_pool.push(
            CommandModel { targets: cmds[0].targets, command: cmds[0].command },
        ));
        assert(q.command_pool =~= p.command_pool.push(cmds[0]));
        lemma_queue_no_lost_updates(q, cmds.drop_first());
        assert(p.command_pool.push(cmds[0]) + cmds.drop_first() =~= p.command_pool + cmds);
    }
}

/// The envelope invariant of a well-formed control exchange: the
/// generated envelope carries the request inbound and no response, and
/// every handler reply carries no request; the two sides are never both
/// populated at once on the wire.
pub proof fn lemma_envelope_well_formed(req: RequestModel, p: PluginModel, m: SystemMessageModel)
    ensures
        MicrochipSystemMessage::spec_generate(req).request == Some(req),
        MicrochipSystemMessage::spec_generate(req).response is None,
        spec_pool_handler(p, m).1.request is None,
{
}

/// The pool invariant: once shutdown has been requested, no request of
/// any kind resets it.
pub proof fn lemma_shutdown_monotone(p: PluginModel, m: SystemMessageModel)
    requires
        p.shutdown,
    ensures
        spec_pool_handler(p, m).0.shutdown,
{
}

/// Shutdown idempotence: a quit request sets the shutdown flag whichever
/// way `destroy` is set, leaving the rest of the plugin the same either
/// way; between the two replies only the confirmation text differs.
pub proof fn lemma_shutdown_idempotence(
    p: PluginModel,
    quiet: SystemMessageModel,
    destructive: SystemMessageModel,
)
    requires
        quiet.request matches Some(RequestModel::QUIT(q)) && !q.destroy,
        destructive.request matches Some(RequestModel::QUIT(q)) && q.destroy,
    ensures
        spec_pool_handler(p, quiet).0.shutdown,
        spec_pool_handler(p, destructive).0.shutdown,
        spec_pool_handler(p, quiet).0 == spec_pool_handler(p, destructive).0,
        spec_pool_handler(p, quiet).1.ip == spec_pool_handler(p, destructive).1.ip,
        spec_pool_handler(p, quiet).1.request == spec_pool_handler(p, destructive).1.request,
        spec_pool_handler(p, quiet).1.response.unwrap().commands == spec_pool_handler(
            p,
            destructive,
        ).1.response.unwrap().commands,
        spec_pool_handler(p, quiet).1.response.unwrap().targets == spec_pool_handler(
            p,
            destructive,
        ).1.response.unwrap().targets,
        spec_pool_handler(p, quiet).1.response.unwrap().confirmation != spec_pool_handler(
            p,
            destructive,
        ).1.response.unwrap().confirmation,
{
    reveal_strlit("Triggering Quiet Closure");
    reveal_strlit("Triggering Massive Destruction of Infrastructure");
    assert("Triggering Quiet Closure"@.len()
        != "Triggering Massive Destruction of Infrastructure"@.len());
}

/// Is this the three-byte handshake tag the conversation continues on?
fn is_handshake_key(k: &Vec<u8>) -> (r: bool)
    ensures
        r == (k@ == seq![1u8, 2u8, 3u8]),
{
    if k.len() == 3 {
        if *vstd::slice::slice_index_get(k.as_slice(), 0) == 1
            && *vstd::slice::slice_index_get(k.as_slice(), 1) == 2
            && *vstd::slice::slice_index_get(k.as_slice(), 2) == 3 {
            proof {
                assert(k@ =~= seq![1u8, 2u8, 3u8]);
            }
            true
        } else {
            proof {
                assert(k@ != seq![1u8, 2u8, 3u8]) by {
                    if k@ == seq![1u8, 2u8, 3u8] {
                        assert(k@[0] == 1u8 && k@[1] == 2u8 && k@[2] == 3u8);
                    }
                }
            }
            false
        }
    } else {
        proof {
            assert(seq![1u8, 2u8, 3u8].len() == 3);
        }
        false
    }
}

} // verus!
