//! UDS service payloads and the checks of responses against requests (ISO 14229-1).
use vstd::prelude::*;
use crate::interfaces::service_ids;
use crate::interfaces::{DEFAULT_SUBFUNCTION_MASK, UDS_ID_RESPONSE_BITMASK};

verus! {

/// A UDS message with its addresses and the session and security level it switches to.
#[derive(Debug, Clone)]
pub struct ServicePayload {
    pub data: Vec<u8>,
    pub source_address: u16,
    pub target_address: u16,
    pub new_session: Option<String>,
    pub new_security: Option<String>,
}

/// The positive response service id of request service id `sid` (saturating).
pub open spec fn positive_response_sid(sid: u8) -> u8 {
    if sid + UDS_ID_RESPONSE_BITMASK > 255 {
        255
    } else {
        (sid + UDS_ID_RESPONSE_BITMASK) as u8
    }
}

/// Whether `data` is a positive response to service `sid`.
pub open spec fn is_positive_response(data: Seq<u8>, sid: u8) -> bool {
    data.len() > 0 && data[0] == positive_response_sid(sid)
}

/// Whether `data` is a negative response to service `sid`.
pub open spec fn is_negative_response(data: Seq<u8>, sid: u8) -> bool {
    data.len() > 1 && data[0] == service_ids::NEGATIVE_RESPONSE && data[1] == sid
}

/// Number of identifier bytes a positive response to service `sid` echoes from the request.
pub open spec fn echo_count(sid: u8) -> int {
    if sid == service_ids::READ_DATA_BY_IDENTIFIER || sid == service_ids::WRITE_DATA_BY_IDENTIFIER
        || sid == service_ids::INPUT_OUTPUT_CONTROL_BY_IDENTIFIER {
        2
    } else if sid == service_ids::ROUTINE_CONTROL {
        3
    } else {
        0
    }
}

/// Whether the response `data` echoes the identifier bytes of `request` as ISO 14229-1
/// requires of a positive response. True when there is nothing to check: an empty request,
/// no positive response, a service without echo or a request too short to hold the echo.
pub open spec fn echo_matches(data: Seq<u8>, request: Seq<u8>) -> bool {
    if request.len() == 0 {
        true
    } else {
        let sid = request[0];
        let n = echo_count(sid);
        if !is_positive_response(data, sid) || n == 0 || request.len() < 1 + n {
            true
        } else if data.len() < 1 + n {
            false
        } else if sid == service_ids::ROUTINE_CONTROL {
            (request[1] & DEFAULT_SUBFUNCTION_MASK) == data[1] && request.subrange(2, 1 + n)
                == data.subrange(2, 1 + n)
        } else {
            request.subrange(1, 1 + n) == data.subrange(1, 1 + n)
        }
    }
}

fn bytes_equal(a: &[u8], b: &[u8], from: usize, to: usize) -> (r: bool)
    requires
        from <= to,
        to <= a@.len(),
        to <= b@.len(),
    ensures
        r == (a@.subrange(from as int, to as int) == b@.subrange(from as int, to as int)),
{
    let mut i = from;
    while i < to
        invariant
            from <= i <= to,
            to <= a@.len(),
            to <= b@.len(),
            a@.subrange(from as int, i as int) == b@.subrange(from as int, i as int),
        decreases to - i,
    {
        if a[i] != b[i] {
            assert(a@.subrange(from as int, to as int)[i - from] != b@.subrange(
                from as int,
                to as int,
            )[i - from]);
            return false;
        }
        i = i + 1;
        assert(a@.subrange(from as int, i as int) =~= b@.subrange(from as int, i as int));
    }
    true
}

impl ServicePayload {
    /// Whether this is a positive response to service `sent_sid`.
    pub fn is_positive_response_for_sid(&self, sent_sid: u8) -> (r: bool)
        ensures
            r == is_positive_response(self.data@, sent_sid),
    {
        self.data.len() > 0 && self.data[0] == sent_sid.saturating_add(UDS_ID_RESPONSE_BITMASK)
    }

    /// Whether this is a negative response to service `sent_sid`.
    pub fn is_negative_response_for_sid(&self, sent_sid: u8) -> (r: bool)
        ensures
            r == is_negative_response(self.data@, sent_sid),
    {
        self.data.len() > 1 && self.data[0] == service_ids::NEGATIVE_RESPONSE && self.data[1]
            == sent_sid
    }

    /// Whether this is a positive or negative response to service `sent_sid`.
    pub fn is_response_for_sid(&self, sent_sid: u8) -> (r: bool)
        ensures
            r == (is_negative_response(self.data@, sent_sid) || is_positive_response(
                self.data@,
                sent_sid,
            )),
    {
        self.is_negative_response_for_sid(sent_sid) || self.is_positive_response_for_sid(sent_sid)
    }

    /// Whether the sub-function byte (index 1) has the suppress-positive-response bit set.
    pub fn is_suppress_positive_response(&self) -> (r: bool)
        ensures
            r == (self.data@.len() > 1 && self.data@[1] & 0x80 != 0),
    {
        self.data.len() > 1 && self.data[1] & 0x80 != 0
    }

    /// Number of bytes after the response service id that a positive response to `sent_sid`
    /// echoes from the request: 2 for the data identifier services, 3 for routine control.
    pub fn echo_byte_count(sent_sid: u8) -> (r: usize)
        ensures
            r == echo_count(sent_sid),
    {
        if sent_sid == service_ids::READ_DATA_BY_IDENTIFIER || sent_sid
            == service_ids::WRITE_DATA_BY_IDENTIFIER || sent_sid
            == service_ids::INPUT_OUTPUT_CONTROL_BY_IDENTIFIER {
            2
        } else if sent_sid == service_ids::ROUTINE_CONTROL {
            3
        } else {
            0
        }
    }

    /// Validates that a positive response echoes the identifier bytes of `request_data`; the
    /// suppress-positive-response bit of a routine control sub-function is ignored.
    pub fn has_matching_echo_bytes(&self, request_data: &[u8]) -> (r: bool)
        ensures
            r == echo_matches(self.data@, request_data@),
    {
        if request_data.len() == 0 {
            return true;
        }
        let sent_sid = request_data[0];
        if !self.is_positive_response_for_sid(sent_sid) {
            return true;
        }
        let echo_len = Self::echo_byte_count(sent_sid);
        if echo_len == 0 {
            return true;
        }
        if request_data.len() < 1 + echo_len {
            return true;
        }
        if self.data.len() < 1 + echo_len {
            return false;
        }
        if sent_sid == service_ids::ROUTINE_CONTROL {
            let request_subfn = request_data[1] & DEFAULT_SUBFUNCTION_MASK;
            if request_subfn != self.data[1] {
                return false;
            }
            return bytes_equal(request_data, self.data.as_slice(), 2, 1 + echo_len);
        }
        bytes_equal(request_data, self.data.as_slice(), 1, 1 + echo_len)
    }
}

} // verus!
