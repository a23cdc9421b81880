//! The narrow managed-mutation surface: request identities that bind an
//! operation to the exact request body by a SHA-256 digest, and the single
//! supported effect, the active state of a `linura-managed-` systemd service.
use vstd::prelude::*;

use sha2::{Digest, Sha256};

use crate::ids::{PrincipalId, ProviderId, RequestId, ResourceId};
use crate::protocol::{PlanDesiredStateRequest, RequestModel};
use crate::text::{
    append_str, chars_of, hex_lower, hex_string, is_prefix, is_suffix, owned, printable_ascii,
    seq_ends_with, seq_starts_with, slice_chars, string_of, utf8_len,
};

verus! {

/// What SHA-256 gives for a byte string.
pub uninterp spec fn sha256_digest(data: Seq<u8>) -> Seq<u8>;

/// Calls `<sha2::Sha256 as sha2::Digest>::digest`. Its result is the SHA-256
/// digest of the bytes, a function of them alone, and is 32 bytes long, the
/// output size of `Sha256`.
#[verifier::external_body]
pub(crate) fn sha256(data: &[u8]) -> (r: Vec<u8>)
    ensures
        r@ == sha256_digest(data@),
        r@.len() == 32,
{
    Sha256::digest(data).to_vec()
}

/// The UTF-8 bytes of a text.
pub open spec fn utf8(s: Seq<char>) -> Seq<u8> {
    vstd::utf8::encode_utf8(s)
}

/// The eight big-endian bytes of `n`.
pub open spec fn be_u64(n: nat) -> Seq<u8> {
    seq![
        (n / 0x100000000000000 % 256) as u8,
        (n / 0x1000000000000 % 256) as u8,
        (n / 0x10000000000 % 256) as u8,
        (n / 0x100000000 % 256) as u8,
        (n / 0x1000000 % 256) as u8,
        (n / 0x10000 % 256) as u8,
        (n / 0x100 % 256) as u8,
        (n % 256) as u8,
    ]
}

/// A field framed by its length: eight big-endian length bytes, then the bytes.
pub open spec fn frame(b: Seq<u8>) -> Seq<u8> {
    be_u64(b.len()) + b
}

/// Each identifier framed after its framed tag, in order.
pub open spec fn id_frames(tag: Seq<u8>, ids: Seq<Seq<char>>) -> Seq<u8>
    decreases ids.len(),
{
    if ids.len() == 0 {
        Seq::empty()
    } else {
        id_frames(tag, ids.drop_last()) + frame(tag) + frame(utf8(ids.last()))
    }
}

/// Each key and value framed, in key order.
pub open spec fn pair_frames(p: Seq<(Seq<char>, Seq<char>)>) -> Seq<u8>
    decreases p.len(),
{
    if p.len() == 0 {
        Seq::empty()
    } else {
        pair_frames(p.drop_last()) + frame(utf8(p.last().0)) + frame(utf8(p.last().1))
    }
}

/// The bytes a managed request digest covers: a domain tag, the operation,
/// the route, the semantic reason with tagged origins, and the desired state.
pub open spec fn managed_digest_input(op: Seq<char>, m: RequestModel) -> Seq<u8> {
    frame(utf8("linura.managed-request.v0.6.v1"@)) + frame(utf8(op)) + frame(utf8(m.provider)) + frame(
        utf8(m.resource),
    ) + frame(utf8(m.capability)) + frame(utf8(m.reason.summary)) + id_frames(
        utf8("intent"@),
        m.reason.intent_ids,
    ) + id_frames(utf8("requirement"@), m.reason.requirement_ids) + id_frames(
        utf8("capability"@),
        m.reason.capability_ids,
    ) + pair_frames(m.desired)
}

/// The lowercase hexadecimal digest that binds an operation to a request body.
pub open spec fn managed_digest(op: Seq<char>, m: RequestModel) -> Seq<char> {
    hex_lower(sha256_digest(managed_digest_input(op, m)))
}

/// Appends the eight big-endian bytes of `n`.
fn push_be_u64(out: &mut Vec<u8>, n: u64)
    ensures
        final(out)@ == old(out)@ + be_u64(n as nat),
{
    out.push((n / 0x100000000000000 % 256) as u8);
    out.push((n / 0x1000000000000 % 256) as u8);
    out.push((n / 0x10000000000 % 256) as u8);
    out.push((n / 0x100000000 % 256) as u8);
    out.push((n / 0x1000000 % 256) as u8);
    out.push((n / 0x10000 % 256) as u8);
    out.push((n / 0x100 % 256) as u8);
    out.push((n % 256) as u8);
    assert(final(out)@ =~= old(out)@ + be_u64(n as nat));
}

/// Appends a field framed by its length.
pub(crate) fn push_frame(out: &mut Vec<u8>, b: &[u8])
    ensures
        final(out)@ == old(out)@ + frame(b@),
{
    push_be_u64(out, b.len() as u64);
    let ghost start = out@;
    let mut i: usize = 0;
    while i < b.len()
        invariant
            i <= b@.len(),
            out@ == start + b@.take(i as int),
        decreases b@.len() - i,
    {
        out.push(b[i]);
        assert(b@.take(i + 1) =~= b@.take(i as int).push(b@[i as int]));
        assert(start + b@.take(i + 1) =~= (start + b@.take(i as int)).push(b@[i as int]));
        i = i + 1;
    }
    assert(b@.take(i as int) =~= b@);
    assert(out@ =~= old(out)@ + frame(b@));
}

/// Appends each identifier framed after the framed tag.
fn push_id_frames<T: crate::ids::TextId>(out: &mut Vec<u8>, tag: &str, ids: &Vec<T>)
    ensures
        final(out)@ == old(out)@ + id_frames(utf8(tag@), crate::ids::texts(ids@)),
{
    let ghost s = crate::ids::texts(ids@);
    let ghost start = out@;
    let mut i: usize = 0;
    while i < ids.len()
        invariant
            i <= ids@.len(),
            s == crate::ids::texts(ids@),
            out@ == start + id_frames(utf8(tag@), s.take(i as int)),
        decreases ids@.len() - i,
    {
        assert(s.take(i + 1).drop_last() =~= s.take(i as int));
        assert(s.take(i + 1).last() == ids@[i as int]@);
        push_frame(out, tag.as_bytes());
        push_frame(out, ids[i].text_of().as_bytes());
        assert(out@ =~= start + id_frames(utf8(tag@), s.take(i + 1)));
        i = i + 1;
    }
    assert(s.take(i as int) =~= s);
}

/// Appends each key and value of a text map, framed.
fn push_pair_frames(out: &mut Vec<u8>, state: &crate::keyed::TextMap<String>)
    ensures
        final(out)@ == old(out)@ + pair_frames(state@),
{
    let ghost s = state@;
    let ghost start = out@;
    let n = state.len();
    let mut i: usize = 0;
    while i < n
        invariant
            i <= n,
            n == s.len(),
            s == state@,
            out@ == start + pair_frames(s.take(i as int)),
        decreases n - i,
    {
        assert(s.take(i + 1).drop_last() =~= s.take(i as int));
        assert(s.take(i + 1).last() == s[i as int]);
        push_frame(out, state.key_at(i).as_str().as_bytes());
        push_frame(out, state.value_at(i).as_str().as_bytes());
        assert(out@ =~= start + pair_frames(s.take(i + 1)));
        i = i + 1;
    }
    assert(s.take(i as int) =~= s);
}

/// Hexadecimal spelling has two lowercase hexadecimal digits per byte.
pub proof fn lemma_hex_lower(bytes: Seq<u8>)
    ensures
        hex_lower(bytes).len() == 2 * bytes.len(),
        forall|i: int| 0 <= i < hex_lower(bytes).len() ==> hex_digit_char(#[trigger] hex_lower(bytes)[i]),
    decreases bytes.len(),
{
    if bytes.len() > 0 {
        lemma_hex_lower(bytes.drop_last());
        let h = hex_lower(bytes.drop_last());
        let a = crate::text::hex_char((bytes.last() / 16) as nat);
        let b = crate::text::hex_char((bytes.last() % 16) as nat);
        assert(hex_digit_char(a) && hex_digit_char(b));
        assert forall|i: int| 0 <= i < hex_lower(bytes).len() implies hex_digit_char(#[trigger] hex_lower(bytes)[i]) by {
            if i < h.len() {
                assert(hex_lower(bytes)[i] == h[i]);
            }
        }
    }
}

/// The digest that binds `operation_id` to the exact body of `request`.
pub fn managed_request_digest(operation_id: &str, request: &PlanDesiredStateRequest) -> (r: String)
    ensures
        r@ == managed_digest(operation_id@, request@),
        r@.len() == 64,
        forall|i: int| 0 <= i < r@.len() ==> hex_digit_char(#[trigger] r@[i]),
{
    let mut input: Vec<u8> = Vec::new();
    push_frame(&mut input, "linura.managed-request.v0.6.v1".as_bytes());
    push_frame(&mut input, operation_id.as_bytes());
    push_frame(&mut input, request.provider.as_str().as_bytes());
    push_frame(&mut input, request.resource.as_str().as_bytes());
    push_frame(&mut input, request.observation_capability.as_str().as_bytes());
    push_frame(&mut input, request.reason.summary.as_str().as_bytes());
    push_id_frames(&mut input, "intent", &request.reason.intent_ids);
    push_id_frames(&mut input, "requirement", &request.reason.requirement_ids);
    push_id_frames(&mut input, "capability", &request.reason.capability_ids);
    push_pair_frames(&mut input, &request.desired_state);
    assert(input@ =~= managed_digest_input(operation_id@, request@));
    let digest = sha256(input.as_slice());
    proof {
        lemma_hex_lower(digest@);
    }
    hex_string(digest.as_slice())
}

/// A lowercase ASCII letter, a digit or a hyphen.
pub open spec fn slug_char(c: char) -> bool {
    ('a' <= c && c <= 'z') || ('0' <= c && c <= '9') || c == '-'
}

/// Whether two hyphens are adjacent somewhere in `s`.
pub open spec fn double_hyphen(s: Seq<char>) -> bool {
    exists|i: int| 0 <= i < s.len() - 1 && #[trigger] s[i] == '-' && s[i + 1] == '-'
}

/// A canonical name: 1 to `max` bytes of lowercase letters, digits and single
/// inner hyphens.
pub open spec fn canonical_slug(s: Seq<char>, max: nat) -> bool {
    &&& s.len() > 0
    &&& utf8_len(s) <= max
    &&& forall|i: int| 0 <= i < s.len() ==> slug_char(#[trigger] s[i])
    &&& s[0] != '-'
    &&& s.last() != '-'
    &&& !double_hyphen(s)
}

/// Whether the characters form a canonical name of at most `max` bytes.
fn is_canonical_slug(s: &[char], max: usize) -> (r: bool)
    ensures
        r == canonical_slug(s@, max as nat),
{
    let n = s.len();
    if n == 0 {
        return false;
    }
    let mut i: usize = 0;
    while i < n
        invariant
            i <= n,
            n == s@.len(),
            forall|j: int| 0 <= j < i ==> slug_char(#[trigger] s@[j]),
            forall|j: int| 0 <= j < i - 1 ==> !(#[trigger] s@[j] == '-' && s@[j + 1] == '-'),
        decreases n - i,
    {
        let c = s[i];
        if !(('a' <= c && c <= 'z') || ('0' <= c && c <= '9') || c == '-') {
            return false;
        }
        if i > 0 && c == '-' && s[i - 1] == '-' {
            assert(double_hyphen(s@)) by {
                assert(s@[i - 1] == '-' && s@[(i - 1) + 1] == '-');
            }
            return false;
        }
        i = i + 1;
    }
    proof {
        assert forall|j: int| 0 <= j < s@.len() implies (#[trigger] s@[j] as u32) <= 0x7f by {
            assert(slug_char(s@[j]));
        }
        crate::text::lemma_ascii_utf8_len(s@);
        if double_hyphen(s@) {
            let j = choose|j: int| 0 <= j < s@.len() - 1 && #[trigger] s@[j] == '-' && s@[j + 1] == '-';
            assert(!(s@[j] == '-' && s@[j + 1] == '-'));
        }
    }
    n <= max && s[0] != '-' && s[n - 1] != '-'
}

/// The reason a malformed operation identifier is refused with.
pub open spec fn operation_id_message() -> Seq<char> {
    "operation id must be 1..64 lowercase ASCII letters/digits/hyphens in canonical form"@
}

/// Why a managed mutation was refused.
#[derive(Clone, Debug, PartialEq, Eq)]
pub enum ManagedLifecycleError {
    UnsupportedEffect(String),
    InvalidRequestIdentity(String),
    ApprovalBoundary(String),
    Authority(String),
    Executor(String),
    ExecutionRejected(String),
    Verification(String),
    VerificationNotSatisfied(String),
    Indeterminate(String),
    TerminalState(String),
    Reconciliation(String),
    Contract(String),
}

/// The human-readable text of a managed-mutation error.
pub open spec fn managed_error_message(e: ManagedLifecycleError) -> Seq<char> {
    match e {
        ManagedLifecycleError::UnsupportedEffect(d) => "unsupported v0.6 effect: "@ + d@,
        ManagedLifecycleError::InvalidRequestIdentity(d) => "invalid v0.6 request identity: "@ + d@,
        ManagedLifecycleError::ApprovalBoundary(d) => "trusted approval boundary failed: "@ + d@,
        ManagedLifecycleError::Authority(d) => "durable authority failed: "@ + d@,
        ManagedLifecycleError::Executor(d) => "privileged executor failed: "@ + d@,
        ManagedLifecycleError::ExecutionRejected(d) => "effect was rejected before dispatch: "@ + d@,
        ManagedLifecycleError::Verification(d) => "independent verification failed: "@ + d@,
        ManagedLifecycleError::VerificationNotSatisfied(d) => "independent verification did not prove intended state: "@ + d@,
        ManagedLifecycleError::Indeterminate(d) => "managed mutation remains indeterminate: "@ + d@,
        ManagedLifecycleError::TerminalState(d) => "durable transaction is terminal and cannot be replayed: "@ + d@,
        ManagedLifecycleError::Reconciliation(d) => "post-commit reconciliation failed: "@ + d@,
        ManagedLifecycleError::Contract(d) => "managed lifecycle contract failed: "@ + d@,
    }
}

impl ManagedLifecycleError {
    /// The human-readable text of this error.
    pub fn message(&self) -> (r: String)
        ensures
            r@ == managed_error_message(*self),
    {
        let (head, detail) = match self {
            ManagedLifecycleError::UnsupportedEffect(d) => ("unsupported v0.6 effect: ", d),
            ManagedLifecycleError::InvalidRequestIdentity(d) => ("invalid v0.6 request identity: ", d),
            ManagedLifecycleError::ApprovalBoundary(d) => ("trusted approval boundary failed: ", d),
            ManagedLifecycleError::Authority(d) => ("durable authority failed: ", d),
            ManagedLifecycleError::Executor(d) => ("privileged executor failed: ", d),
            ManagedLifecycleError::ExecutionRejected(d) => ("effect was rejected before dispatch: ", d),
            ManagedLifecycleError::Verification(d) => ("independent verification failed: ", d),
            ManagedLifecycleError::VerificationNotSatisfied(d) => ("independent verification did not prove intended state: ", d),
            ManagedLifecycleError::Indeterminate(d) => ("managed mutation remains indeterminate: ", d),
            ManagedLifecycleError::TerminalState(d) => ("durable transaction is terminal and cannot be replayed: ", d),
            ManagedLifecycleError::Reconciliation(d) => ("post-commit reconciliation failed: ", d),
            ManagedLifecycleError::Contract(d) => ("managed lifecycle contract failed: ", d),
        };
        let mut out = owned(head);
        append_str(&mut out, detail.as_str());
        out
    }
}

/// A human approval established at the privileged local boundary.
#[derive(Clone, Debug, PartialEq, Eq)]
pub struct TrustedHumanApproval {
    principal: PrincipalId,
}

impl TrustedHumanApproval {
    /// The text of the approving principal.
    pub closed spec fn principal_spec(self) -> Seq<char> {
        self.principal@
    }

    /// The approval that the privileged local boundary established for a principal.
    pub fn from_privileged_local_boundary(principal: PrincipalId) -> (r: Self)
        ensures
            r.principal_spec() == principal@,
    {
        TrustedHumanApproval { principal }
    }

    /// The approving principal.
    pub fn principal(&self) -> (r: &PrincipalId)
        ensures
            r@ == self.principal_spec(),
    {
        &self.principal
    }
}

/// What a managed mutation reports once it converged.
#[derive(Clone, Debug, PartialEq, Eq)]
pub struct ManagedMutationReceipt {
    pub transaction_id: String,
    pub plan_id: String,
    pub resource: String,
    pub desired_active_state: String,
    pub effect_digest: String,
    pub dispatch_digest: Option<String>,
    pub execution_disposition: Option<String>,
    pub verification_disposition: String,
    pub final_state: String,
    pub recovered: bool,
    pub stages: Vec<String>,
}

/// Checks that an operation identifier is a canonical name of at most 64 bytes.
pub fn validate_operation_id(operation_id: &str) -> (r: Result<(), ManagedLifecycleError>)
    ensures
        match r {
            Ok(()) => canonical_slug(operation_id@, 64),
            Err(ManagedLifecycleError::InvalidRequestIdentity(m)) => !canonical_slug(operation_id@, 64)
                && m@ == operation_id_message(),
            Err(_) => false,
        },
{
    let chars = chars_of(operation_id);
    if is_canonical_slug(chars.as_slice(), 64) {
        Ok(())
    } else {
        Err(ManagedLifecycleError::InvalidRequestIdentity(
            owned("operation id must be 1..64 lowercase ASCII letters/digits/hyphens in canonical form"),
        ))
    }
}

/// The request identifier text that binds an operation to a request body.
pub open spec fn managed_request_text(op: Seq<char>, m: RequestModel) -> Seq<char> {
    "request:v06:"@ + op + ":"@ + managed_digest(op, m)
}

/// A request with its identifier replaced.
pub open spec fn with_request_id(m: RequestModel, id: Seq<char>) -> RequestModel {
    RequestModel {
        request_id: id,
        provider: m.provider,
        resource: m.resource,
        capability: m.capability,
        reason: m.reason,
        desired: m.desired,
    }
}

/// The request identifier that binds `operation_id` to the exact body of
/// `request`, for a canonical operation. The identifier it gives validates
/// for the request carrying it.
pub fn managed_request_id(operation_id: &str, request: &PlanDesiredStateRequest) -> (r: Result<
    RequestId,
    ManagedLifecycleError,
>)
    ensures
        canonical_slug(operation_id@, 64) ==> (r matches Ok(id) && id@ == managed_request_text(
            operation_id@,
            request@,
        )),
        !canonical_slug(operation_id@, 64) ==> (r matches Err(ManagedLifecycleError::InvalidRequestIdentity(m))
            && m@ == operation_id_message()),
        r matches Ok(id) ==> identity_fault(with_request_id(request@, id@)) is None,
{
    match validate_operation_id(operation_id) {
        Err(e) => {
            return Err(e);
        },
        Ok(()) => {},
    }
    let digest = managed_request_digest(operation_id, request);
    let prefix = "request:v06:";
    let colon = ":";
    let mut text = owned(prefix);
    append_str(&mut text, operation_id);
    append_str(&mut text, colon);
    append_str(&mut text, digest.as_str());
    proof {
        reveal_strlit("request:v06:");
        reveal_strlit(":");
        let t = text@;
        assert(t =~= managed_request_text(operation_id@, request@));
        assert(printable_ascii(t)) by {
            assert forall|i: int| 0 <= i < t.len() implies 0x20 <= (#[trigger] t[i] as u32) && (t[i] as u32) <= 0x7e by {
                let op = operation_id@;
                if i < 12 {
                    assert(t[i] == prefix@[i]);
                } else if i < 12 + op.len() {
                    assert(t[i] == op[i - 12]);
                    assert(slug_char(op[i - 12]));
                } else if i == 12 + op.len() {
                } else {
                    assert(t[i] == digest@[i - 13 - op.len()]);
                    assert(hex_digit_char(digest@[i - 13 - op.len()]));
                }
            }
        }
        crate::text::lemma_ascii_utf8_len(operation_id@);
        crate::ids::lemma_printable_token(t);
        lemma_identity_binds(operation_id@, request@);
    }
    match RequestId::new(text.as_str()) {
        Ok(id) => Ok(id),
        Err(e) => Err(ManagedLifecycleError::InvalidRequestIdentity(e.message())),
    }
}

/// A lowercase hexadecimal digit.
pub open spec fn hex_digit_char(c: char) -> bool {
    ('0' <= c && c <= '9') || ('a' <= c && c <= 'f')
}

/// The last position of a colon in `s`, when there is one.
pub open spec fn last_colon(s: Seq<char>) -> int {
    choose|j: int| 0 <= j < s.len() && s[j] == ':' && forall|k: int| j < k < s.len() ==> #[trigger] s[k] != ':'
}

/// The first rule a managed request identifier breaks, as the reason
/// reported: the `request:v06:` prefix, then an operation and a digest after
/// the last colon, a canonical operation, a well-formed digest, and a digest
/// that binds the exact request body.
pub open spec fn identity_fault(m: RequestModel) -> Option<Seq<char>> {
    let id = m.request_id;
    let p = "request:v06:"@;
    if !is_prefix(p, id) {
        Some("request id must begin with request:v06:"@)
    } else {
        let rest = id.skip(p.len() as int);
        if !rest.contains(':') {
            Some("request id must contain an operation id and body digest"@)
        } else {
            let j = last_colon(rest);
            let op = rest.take(j);
            let d = rest.skip(j + 1);
            if !canonical_slug(op, 64) {
                Some(operation_id_message())
            } else if !(d.len() == 64 && forall|i: int| 0 <= i < d.len() ==> hex_digit_char(#[trigger] d[i])) {
                Some("request body digest must be 64 lowercase hexadecimal digits"@)
            } else if d != managed_digest(op, m) {
                Some("request id does not bind the exact provider/resource/capability/reason/desired-state body"@)
            } else {
                None
            }
        }
    }
}

/// Position of the last colon, if any.
fn find_last_colon(s: &[char]) -> (r: Option<usize>)
    ensures
        match r {
            Some(j) => s@.contains(':') && j == last_colon(s@) && j < s@.len(),
            None => !s@.contains(':'),
        },
{
    let mut k: usize = s.len();
    while k > 0
        invariant
            k <= s@.len(),
            forall|x: int| k <= x < s@.len() ==> #[trigger] s@[x] != ':',
        decreases k,
    {
        if s[k - 1] == ':' {
            let j = k - 1;
            proof {
                let c = last_colon(s@);
                assert(s@[j as int] == ':');
                assert(0 <= c < s@.len() && s@[c] == ':' && forall|x: int| c < x < s@.len() ==> #[trigger] s@[x] != ':');
                if c < j {
                    assert(s@[j as int] != ':');
                } else if c > j {
                    assert(s@[c] != ':');
                }
            }
            return Some(j);
        }
        k = k - 1;
    }
    None
}

/// Whether the characters are exactly 64 lowercase hexadecimal digits.
fn is_digest_text(d: &[char]) -> (r: bool)
    ensures
        r == (d@.len() == 64 && forall|i: int| 0 <= i < d@.len() ==> hex_digit_char(#[trigger] d@[i])),
{
    if d.len() != 64 {
        return false;
    }
    let mut i: usize = 0;
    while i < d.len()
        invariant
            i <= d@.len(),
            forall|j: int| 0 <= j < i ==> hex_digit_char(#[trigger] d@[j]),
        decreases d@.len() - i,
    {
        let c = d[i];
        if !(('0' <= c && c <= '9') || ('a' <= c && c <= 'f')) {
            return false;
        }
        i = i + 1;
    }
    true
}

/// A request identifier made for an operation and a request body validates
/// for that body: its prefix, operation and digest are found again, and the
/// digest covers everything but the identifier itself.
proof fn lemma_identity_binds(op: Seq<char>, m: RequestModel)
    requires
        canonical_slug(op, 64),
        managed_digest(op, m).len() == 64,
        forall|i: int| 0 <= i < managed_digest(op, m).len() ==> hex_digit_char(#[trigger] managed_digest(op, m)[i]),
    ensures
        identity_fault(with_request_id(m, managed_request_text(op, m))) is None,
{
    reveal_strlit(":");
    let d = managed_digest(op, m);
    let t = managed_request_text(op, m);
    let m2 = with_request_id(m, t);
    let p = "request:v06:"@;
    assert(managed_digest_input(op, m2) == managed_digest_input(op, m));
    assert(t.take(p.len() as int) =~= p);
    let rest = t.skip(p.len() as int);
    assert(rest =~= op + ":"@ + d);
    let j = op.len() as int;
    assert(rest[j] == ':');
    assert(rest.contains(':'));
    assert forall|k: int| j < k < rest.len() implies #[trigger] rest[k] != ':' by {
        assert(rest[k] == d[k - j - 1]);
        assert(hex_digit_char(d[k - j - 1]));
    }
    let c = last_colon(rest);
    if c != j {
        if c < j {
            assert(rest[j] != ':');
        } else {
            assert(rest[c] == d[c - j - 1]);
            assert(hex_digit_char(d[c - j - 1]));
        }
    }
    assert(rest.take(j) =~= op);
    assert(rest.skip(j + 1) =~= d);
}

proof fn lemma_split_at_first_colon(op1: Seq<char>, d1: Seq<char>, op2: Seq<char>, d2: Seq<char>)
    requires
        forall|i: int| 0 <= i < op1.len() ==> slug_char(#[trigger] op1[i]),
        forall|i: int| 0 <= i < op2.len() ==> slug_char(#[trigger] op2[i]),
        op1 + seq![':'] + d1 == op2 + seq![':'] + d2,
    ensures
        op1 == op2,
{
    let r1 = op1 + seq![':'] + d1;
    let r2 = op2 + seq![':'] + d2;
    if op1.len() < op2.len() {
        assert(r1[op1.len() as int] == ':');
        assert(r2[op1.len() as int] == op2[op1.len() as int]);
        assert(slug_char(op2[op1.len() as int]));
    } else if op2.len() < op1.len() {
        assert(r2[op2.len() as int] == ':');
        assert(r1[op2.len() as int] == op1[op2.len() as int]);
        assert(slug_char(op1[op2.len() as int]));
    } else {
        assert(op1 =~= r1.take(op1.len() as int));
        assert(op2 =~= r2.take(op2.len() as int));
    }
}

proof fn lemma_texts_differ(op1: Seq<char>, d1: Seq<char>, op2: Seq<char>, d2: Seq<char>)
    requires
        forall|i: int| 0 <= i < op1.len() ==> slug_char(#[trigger] op1[i]),
        forall|i: int| 0 <= i < op2.len() ==> slug_char(#[trigger] op2[i]),
        op1 != op2,
    ensures
        "request:v06:"@ + op1 + ":"@ + d1 != "request:v06:"@ + op2 + ":"@ + d2,
{
    reveal_strlit(":");
    let p = "request:v06:"@;
    let t1 = p + op1 + ":"@ + d1;
    let t2 = p + op2 + ":"@ + d2;
    if t1 == t2 {
        assert(t1.skip(p.len() as int) =~= op1 + seq![':'] + d1);
        assert(t2.skip(p.len() as int) =~= op2 + seq![':'] + d2);
        lemma_split_at_first_colon(op1, d1, op2, d2);
    }
}

/// Request identifiers bind their operation: two distinct canonical
/// operations never give the same identifier, whatever the request bodies.
pub proof fn law_request_ids_bind_operation(op1: Seq<char>, op2: Seq<char>, m1: RequestModel, m2: RequestModel)
    requires
        canonical_slug(op1, 64),
        canonical_slug(op2, 64),
        op1 != op2,
    ensures
        managed_request_text(op1, m1) != managed_request_text(op2, m2),
{
    lemma_texts_differ(op1, managed_digest(op1, m1), op2, managed_digest(op2, m2));
}

/// Checks that a request identifier binds its operation to the exact body.
pub fn validate_request_identity(request: &PlanDesiredStateRequest) -> (r: Result<(), ManagedLifecycleError>)
    ensures
        match r {
            Ok(()) => identity_fault(request@) is None,
            Err(ManagedLifecycleError::InvalidRequestIdentity(m)) => identity_fault(request@) == Some(m@),
            Err(_) => false,
        },
{
    let id = chars_of(request.request_id.as_str());
    let prefix = chars_of("request:v06:");
    if !seq_starts_with(id.as_slice(), prefix.as_slice()) {
        return Err(ManagedLifecycleError::InvalidRequestIdentity(owned("request id must begin with request:v06:")));
    }
    let rest = slice_chars(id.as_slice(), prefix.len(), id.len());
    assert(rest@ =~= id@.skip(prefix@.len() as int));
    let j = match find_last_colon(rest.as_slice()) {
        None => {
            return Err(ManagedLifecycleError::InvalidRequestIdentity(
                owned("request id must contain an operation id and body digest"),
            ));
        },
        Some(j) => j,
    };
    let op = slice_chars(rest.as_slice(), 0, j);
    let digest = slice_chars(rest.as_slice(), j + 1, rest.len());
    assert(op@ =~= rest@.take(j as int));
    assert(digest@ =~= rest@.skip(j + 1));
    let op_text = string_of(op.as_slice());
    match validate_operation_id(op_text.as_str()) {
        Err(e) => {
            return Err(e);
        },
        Ok(()) => {},
    }
    if !is_digest_text(digest.as_slice()) {
        return Err(ManagedLifecycleError::InvalidRequestIdentity(
            owned("request body digest must be 64 lowercase hexadecimal digits"),
        ));
    }
    let expected = managed_request_digest(op_text.as_str(), request);
    let supplied = string_of(digest.as_slice());
    if !crate::text::str_eq(supplied.as_str(), expected.as_str()) {
        return Err(ManagedLifecycleError::InvalidRequestIdentity(
            owned("request id does not bind the exact provider/resource/capability/reason/desired-state body"),
        ));
    }
    Ok(())
}

/// Whether every character is ASCII.
pub open spec fn ascii(s: Seq<char>) -> bool {
    forall|i: int| 0 <= i < s.len() ==> (#[trigger] s[i] as u32) <= 0x7f
}

/// The managed service a resource names, or why it names none: a
/// `systemd:unit:` resource whose unit is a bounded ASCII `.service` name in
/// the `linura-managed-` namespace with a canonical name.
pub open spec fn managed_unit(resource: Seq<char>) -> Result<Seq<char>, Seq<char>> {
    let p = "systemd:unit:"@;
    if !is_prefix(p, resource) {
        Err("resource is not a systemd unit"@)
    } else {
        let unit = resource.skip(p.len() as int);
        if !(unit.len() > 0 && utf8_len(unit) <= 255 && is_suffix(".service"@, unit) && ascii(unit)) {
            Err("unit must be a bounded ASCII .service name"@)
        } else if !is_prefix("linura-managed-"@, unit) {
            Err("unit is outside the linura-managed- namespace"@)
        } else {
            let suffix = unit.skip("linura-managed-"@.len() as int);
            if !is_suffix(".service"@, suffix) {
                Err("managed unit suffix is not canonical"@)
            } else {
                let slug = suffix.take(suffix.len() - ".service"@.len());
                if !canonical_slug(slug, 96) {
                    Err("managed unit name is not canonical"@)
                } else {
                    Ok(unit)
                }
            }
        }
    }
}

/// The payload that sets a unit's active state.
pub open spec fn active_state_payload(unit: Seq<char>, state: Seq<char>) -> Seq<u8> {
    utf8("unit="@ + unit + "\nactive_state="@ + state + "\n"@)
}

/// The payload of the one supported effect on a resource and desired state,
/// or why there is none.
pub open spec fn managed_payload(resource: Seq<char>, desired: Seq<(Seq<char>, Seq<char>)>) -> Result<
    Seq<u8>,
    Seq<char>,
> {
    match managed_unit(resource) {
        Err(m) => Err(m),
        Ok(unit) => if desired.len() != 1 {
            Err("v0.6 accepts exactly one desired-state attribute"@)
        } else {
            match crate::keyed::lookup(desired, "active_state"@) {
                None => Err("active_state is required"@),
                Some(v) => if v != "active"@ && v != "inactive"@ {
                    Err("active_state must be exactly active or inactive"@)
                } else {
                    Ok(active_state_payload(unit, v))
                },
            }
        },
    }
}

/// One external effect: an operation with its canonical payload on a
/// provider's resource.
#[derive(Debug, PartialEq, Eq)]
pub struct EffectDescriptor {
    pub provider: ProviderId,
    pub resource: ResourceId,
    pub operation: String,
    pub canonical_payload: Vec<u8>,
}

/// Checks that a resource names a managed service and returns its unit.
fn managed_unit_from_resource(resource: &str) -> (r: Result<String, ManagedLifecycleError>)
    ensures
        match managed_unit(resource@) {
            Ok(unit) => r matches Ok(u) && u@ == unit,
            Err(m) => r matches Err(ManagedLifecycleError::UnsupportedEffect(x)) && x@ == m,
        },
{
    let chars = chars_of(resource);
    let prefix = chars_of("systemd:unit:");
    if !seq_starts_with(chars.as_slice(), prefix.as_slice()) {
        return Err(ManagedLifecycleError::UnsupportedEffect(owned("resource is not a systemd unit")));
    }
    let unit = slice_chars(chars.as_slice(), prefix.len(), chars.len());
    assert(unit@ =~= chars@.skip(prefix@.len() as int));
    let unit_text = string_of(unit.as_slice());
    let service = chars_of(".service");
    let mut is_ascii = true;
    let mut i: usize = 0;
    while i < unit.len()
        invariant
            i <= unit@.len(),
            is_ascii == forall|j: int| 0 <= j < i ==> (#[trigger] unit@[j] as u32) <= 0x7f,
        decreases unit@.len() - i,
    {
        if (unit[i] as u32) > 0x7f {
            is_ascii = false;
        }
        i = i + 1;
    }
    if unit.len() == 0 || crate::text::byte_len(unit_text.as_str()) > 255
        || !seq_ends_with(unit.as_slice(), service.as_slice()) || !is_ascii {
        return Err(ManagedLifecycleError::UnsupportedEffect(owned("unit must be a bounded ASCII .service name")));
    }
    let namespace = chars_of("linura-managed-");
    if !seq_starts_with(unit.as_slice(), namespace.as_slice()) {
        return Err(ManagedLifecycleError::UnsupportedEffect(owned("unit is outside the linura-managed- namespace")));
    }
    let suffix = slice_chars(unit.as_slice(), namespace.len(), unit.len());
    assert(suffix@ =~= unit@.skip(namespace@.len() as int));
    if !seq_ends_with(suffix.as_slice(), service.as_slice()) {
        return Err(ManagedLifecycleError::UnsupportedEffect(owned("managed unit suffix is not canonical")));
    }
    let slug = slice_chars(suffix.as_slice(), 0, suffix.len() - service.len());
    assert(slug@ =~= suffix@.take(suffix@.len() - service@.len()));
    if !is_canonical_slug(slug.as_slice(), 96) {
        return Err(ManagedLifecycleError::UnsupportedEffect(owned("managed unit name is not canonical")));
    }
    Ok(unit_text)
}

/// The effect that sets the active state of a managed service, from a
/// provider, resource and desired state.
fn effect_from_parts(provider: ProviderId, resource: ResourceId, desired_state: &crate::keyed::TextMap<String>) -> (r: Result<
    EffectDescriptor,
    ManagedLifecycleError,
>)
    ensures
        match managed_payload(resource@, desired_state@) {
            Ok(payload) => r matches Ok(e) && e.provider@ == provider@ && e.resource@ == resource@
                && e.operation@ == "set-active-state"@ && e.canonical_payload@ == payload,
            Err(m) => r matches Err(ManagedLifecycleError::UnsupportedEffect(x)) && x@ == m,
        },
{
    let unit = match managed_unit_from_resource(resource.as_str()) {
        Ok(u) => u,
        Err(e) => {
            return Err(e);
        },
    };
    if desired_state.len() != 1 {
        return Err(ManagedLifecycleError::UnsupportedEffect(owned("v0.6 accepts exactly one desired-state attribute")));
    }
    let desired = match desired_state.get("active_state") {
        None => {
            return Err(ManagedLifecycleError::UnsupportedEffect(owned("active_state is required")));
        },
        Some(v) => v,
    };
    if !crate::text::str_eq(desired.as_str(), "active") && !crate::text::str_eq(desired.as_str(), "inactive") {
        return Err(ManagedLifecycleError::UnsupportedEffect(owned("active_state must be exactly active or inactive")));
    }
    let mut payload = owned("unit=");
    append_str(&mut payload, unit.as_str());
    append_str(&mut payload, "\nactive_state=");
    append_str(&mut payload, desired.as_str());
    append_str(&mut payload, "\n");
    let bytes = payload.as_str().as_bytes();
    let mut canonical_payload: Vec<u8> = Vec::new();
    let mut i: usize = 0;
    while i < bytes.len()
        invariant
            i <= bytes@.len(),
            canonical_payload@ == bytes@.take(i as int),
        decreases bytes@.len() - i,
    {
        canonical_payload.push(bytes[i]);
        assert(bytes@.take(i + 1) =~= bytes@.take(i as int).push(bytes@[i as int]));
        i = i + 1;
    }
    assert(bytes@.take(i as int) =~= bytes@);
    Ok(EffectDescriptor { provider, resource, operation: owned("set-active-state"), canonical_payload })
}

/// The effect a public request asks for: the authoritative systemd unit
/// observation route, and the active state of one managed service.
pub fn effect_from_request(request: &PlanDesiredStateRequest) -> (r: Result<EffectDescriptor, ManagedLifecycleError>)
    ensures
        if request@.provider != "systemd"@ || request@.capability != "systemd.unit.observe"@ {
            r matches Err(ManagedLifecycleError::UnsupportedEffect(x)) && x@
                == "only the authoritative systemd unit observation route is supported"@
        } else {
            match managed_payload(request@.resource, request@.desired) {
                Ok(payload) => r matches Ok(e) && e.provider@ == request@.provider && e.resource@
                    == request@.resource && e.operation@ == "set-active-state"@ && e.canonical_payload@
                    == payload,
                Err(m) => r matches Err(ManagedLifecycleError::UnsupportedEffect(x)) && x@ == m,
            }
        },
{
    if !crate::text::str_eq(request.provider.as_str(), "systemd") || !crate::text::str_eq(
        request.observation_capability.as_str(),
        "systemd.unit.observe",
    ) {
        return Err(ManagedLifecycleError::UnsupportedEffect(
            owned("only the authoritative systemd unit observation route is supported"),
        ));
    }
    effect_from_parts(request.provider.clone(), request.resource.clone(), &request.desired_state)
}

} // verus!
