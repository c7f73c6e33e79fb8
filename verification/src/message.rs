//! The wire message codec: a byte buffer with the fixed frame layout
//! ID(2) | TYPE(2) | CMD(2) | KEY(2) | PAYLOAD, all fields big-endian and
//! the payload bit-packed.

use vstd::prelude::*;
use vstd::string::StringExecFns;
use crate::msg::{MessageCommand, MessageKey, MessageType};
use crate::msg::{DEF_PL_SIZE, ID_OFFSET, KEY_OFFSET, PAYLOAD_OFFSET, TYPE_OFFSET, CMD_OFFSET};
use crate::text::{dec_digits, padded3, push_dec, push_padded3};

verus! {

/// A wire message: the raw frame bytes, mutated in place while a message
/// is built or read.
pub struct Message {
    pub data: Vec<u8>,
}

/// The big-endian 16-bit field of `data` that starts at byte `off`.
pub open spec fn prop_at(data: Seq<u8>, off: int) -> u16 {
    ((data[off] as u16) * 256 + (data[off + 1] as u16)) as u16
}

/// The byte of the frame that carries payload bit `i`.
pub open spec fn bit_byte(i: int) -> int {
    i / 8 + PAYLOAD_OFFSET
}

/// Payload bit `i` of the frame: bit `i % 8` of the byte at `bit_byte(i)`.
pub open spec fn payload_bit(data: Seq<u8>, i: int) -> bool {
    data[bit_byte(i)] & (1u8 << ((i % 8) as u8)) != 0u8
}

/// Setting a bit leaves every other bit of the byte as it was.
proof fn lemma_set_bit_effect(b: u8, s: u8, t: u8)
    by (bit_vector)
    requires
        s < 8,
        t < 8,
    ensures
        (b | (1u8 << s)) & (1u8 << s) != 0u8,
        s != t ==> ((b | (1u8 << s)) & (1u8 << t) != 0u8) == (b & (1u8 << t) != 0u8),
        b & (1u8 << s) != 0u8 ==> (b | (1u8 << s)) == b,
{
}

/// Clearing a bit leaves every other bit of the byte as it was.
proof fn lemma_clear_bit_effect(b: u8, s: u8, t: u8)
    by (bit_vector)
    requires
        s < 8,
        t < 8,
    ensures
        (b & !(1u8 << s)) & (1u8 << s) == 0u8,
        s != t ==> ((b & !(1u8 << s)) & (1u8 << t) != 0u8) == (b & (1u8 << t) != 0u8),
        b & (1u8 << s) == 0u8 ==> (b & !(1u8 << s)) == b,
{
}

/// Two distinct bit indices either land in different bytes or in different
/// bits of the same byte.
proof fn lemma_distinct_bits(i: int, j: int)
    requires
        0 <= i,
        0 <= j,
        i != j,
    ensures
        bit_byte(i) == bit_byte(j) ==> i % 8 != j % 8,
{
    vstd::arithmetic::div_mod::lemma_fundamental_div_mod(i, 8);
    vstd::arithmetic::div_mod::lemma_fundamental_div_mod(j, 8);
}

/// The buffer a header write works on: an undersized buffer is replaced by
/// a zeroed one of header size plus the default payload size.
pub open spec fn grown(data: Seq<u8>) -> Seq<u8> {
    if data.len() < PAYLOAD_OFFSET {
        Seq::new((PAYLOAD_OFFSET + DEF_PL_SIZE) as nat, |i: int| 0u8)
    } else {
        data
    }
}

impl Message {
    /// Reads the big-endian 16-bit field at byte offset `*offset`.
    pub fn get_prop(&self, offset: &usize) -> (r: u16)
        requires
            *offset + 2 <= self.data.len(),
        ensures
            r == prop_at(self.data@, *offset as int),
    {
        let hi = self.data[*offset];
        let lo = self.data[*offset + 1];
        (hi as u16) * 256 + (lo as u16)
    }

    /// Writes `*prop` as a big-endian 16-bit field at byte offset `*offset`;
    /// no other byte of the buffer changes.
    pub fn set_prop(&mut self, offset: &usize, prop: &u16)
        requires
            *offset + 2 <= old(self).data.len(),
        ensures
            final(self).data@.len() == old(self).data@.len(),
            prop_at(final(self).data@, *offset as int) == *prop,
            forall|i: int|
                0 <= i < old(self).data@.len() && i != *offset && i != *offset + 1
                    ==> final(self).data@[i] == old(self).data@[i],
    {
        let hi = (*prop / 256) as u8;
        let lo = (*prop % 256) as u8;
        self.data[*offset] = hi;
        self.data[*offset + 1] = lo;
        proof {
            assert(hi as u16 * 256 + lo as u16 == *prop) by {
                vstd::arithmetic::div_mod::lemma_fundamental_div_mod(*prop as int, 256);
            };
        }
    }

    /// Writes the TYPE field.
    pub fn set_type(&mut self, msg_type: MessageType)
        requires
            old(self).data.len() >= TYPE_OFFSET + 2,
        ensures
            final(self).data@.len() == old(self).data@.len(),
            prop_at(final(self).data@, TYPE_OFFSET as int) == msg_type.value(),
            forall|i: int|
                0 <= i < old(self).data@.len() && !(TYPE_OFFSET <= i < TYPE_OFFSET + 2)
                    ==> final(self).data@[i] == old(self).data@[i],
    {
        if let Some(v) = msg_type.to_u16() {
            self.set_prop(&TYPE_OFFSET, &v)
        }
    }

    /// Writes the CMD field.
    pub fn set_cmd(&mut self, msg_cmd: MessageCommand)
        requires
            old(self).data.len() >= CMD_OFFSET + 2,
        ensures
            final(self).data@.len() == old(self).data@.len(),
            prop_at(final(self).data@, CMD_OFFSET as int) == msg_cmd.value(),
            forall|i: int|
                0 <= i < old(self).data@.len() && !(CMD_OFFSET <= i < CMD_OFFSET + 2)
                    ==> final(self).data@[i] == old(self).data@[i],
    {
        if let Some(v) = msg_cmd.to_u16() {
            self.set_prop(&CMD_OFFSET, &v)
        }
    }

    /// Writes the KEY field.
    pub fn set_key(&mut self, msg_key: MessageKey)
        requires
            old(self).data.len() >= KEY_OFFSET + 2,
        ensures
            final(self).data@.len() == old(self).data@.len(),
            prop_at(final(self).data@, KEY_OFFSET as int) == msg_key.value(),
            forall|i: int|
                0 <= i < old(self).data@.len() && !(KEY_OFFSET <= i < KEY_OFFSET + 2)
                    ==> final(self).data@[i] == old(self).data@[i],
    {
        if let Some(v) = msg_key.to_u16() {
            self.set_prop(&KEY_OFFSET, &v)
        }
    }

    /// Reads the TYPE field; a short buffer or an unknown wire value yields
    /// `None`, never a fault.
    pub fn get_type(&self) -> (r: Option<MessageType>)
        ensures
            r == (if self.data@.len() < TYPE_OFFSET + 2 {
                None::<MessageType>
            } else {
                MessageType::spec_from_u16(prop_at(self.data@, TYPE_OFFSET as int))
            }),
    {
        if self.data.len() < TYPE_OFFSET + 2 {
            return None;
        }
        MessageType::from_u16(self.get_prop(&TYPE_OFFSET))
    }

    /// Reads the CMD field; a short buffer or an unknown wire value yields
    /// `None`, never a fault.
    pub fn get_cmd(&self) -> (r: Option<MessageCommand>)
        ensures
            r == (if self.data@.len() < CMD_OFFSET + 2 {
                None::<MessageCommand>
            } else {
                MessageCommand::spec_from_u16(prop_at(self.data@, CMD_OFFSET as int))
            }),
    {
        if self.data.len() < CMD_OFFSET + 2 {
            return None;
        }
        MessageCommand::from_u16(self.get_prop(&CMD_OFFSET))
    }

    /// Reads the KEY field; a short buffer or an unknown wire value yields
    /// `None`, never a fault.
    pub fn get_key(&self) -> (r: Option<MessageKey>)
        ensures
            r == (if self.data@.len() < KEY_OFFSET + 2 {
                None::<MessageKey>
            } else {
                MessageKey::spec_from_u16(prop_at(self.data@, KEY_OFFSET as int))
            }),
    {
        if self.data.len() < KEY_OFFSET + 2 {
            return None;
        }
        MessageKey::from_u16(self.get_prop(&KEY_OFFSET))
    }

    /// Writes the TYPE, CMD and KEY fields; a buffer shorter than the header
    /// is first replaced by a zeroed one of header size plus the default
    /// payload size. The ID field and the payload are untouched.
    pub fn create_header(
        &mut self,
        msg_type: MessageType,
        msg_cmd: MessageCommand,
        msg_key: MessageKey,
    )
        ensures
            final(self).data@.len() == grown(old(self).data@).len(),
            final(self).data@.len() >= PAYLOAD_OFFSET,
            prop_at(final(self).data@, TYPE_OFFSET as int) == msg_type.value(),
            prop_at(final(self).data@, CMD_OFFSET as int) == msg_cmd.value(),
            prop_at(final(self).data@, KEY_OFFSET as int) == msg_key.value(),
            forall|i: int|
                0 <= i < final(self).data@.len() && !(TYPE_OFFSET <= i < KEY_OFFSET + 2)
                    ==> final(self).data@[i] == grown(old(self).data@)[i],
    {
        if self.data.len() < PAYLOAD_OFFSET {
            self.data = vec![0u8; PAYLOAD_OFFSET + DEF_PL_SIZE];
        }
        assert(self.data@ =~= grown(old(self).data@));
        self.set_type(msg_type);
        self.set_cmd(msg_cmd);
        self.set_key(msg_key);
    }

    /// Sets payload bit `*idx`. A bit whose byte falls outside the buffer is
    /// dropped: the buffer is never grown and never faulted on. Setting a bit
    /// that is already set leaves the buffer unchanged.
    pub fn set_payload_bit(&mut self, idx: &usize)
        ensures
            final(self).data@.len() == old(self).data@.len(),
            bit_byte(*idx as int) >= old(self).data@.len() ==> final(self).data@
                == old(self).data@,
            bit_byte(*idx as int) < old(self).data@.len() ==> {
                &&& payload_bit(final(self).data@, *idx as int)
                &&& forall|i: int|
                    0 <= i < old(self).data@.len() && i != bit_byte(*idx as int)
                        ==> final(self).data@[i] == old(self).data@[i]
                &&& forall|j: int|
                    0 <= j && j != *idx && bit_byte(j) < old(self).data@.len()
                        ==> payload_bit(final(self).data@, j) == payload_bit(
                        old(self).data@,
                        j,
                    )
                &&& payload_bit(old(self).data@, *idx as int) ==> final(self).data@
                    == old(self).data@
            },
    {
        proof {
            assert(*idx >> 3 == *idx / 8) by (bit_vector);
        }
        let byte: usize = (*idx >> 3) + PAYLOAD_OFFSET;
        let bit: u8 = (*idx % 8) as u8;
        if byte >= self.data.len() {
            return;
        }
        let mask: u8 = 1u8 << bit;
        let updated: u8 = self.data[byte] | mask;
        let was_set: bool = self.data[byte] & mask != 0u8;
        self.data[byte] = updated;
        proof {
            let i = *idx as int;
            assert forall|j: int|
                0 <= j && j != i && bit_byte(j) < old(self).data@.len() implies payload_bit(
                final(self).data@,
                j,
            ) == payload_bit(old(self).data@, j) by {
                if bit_byte(j) == bit_byte(i) {
                    lemma_distinct_bits(i, j);
                    lemma_set_bit_effect(old(self).data@[bit_byte(i)], bit, (j % 8) as u8);
                }
            };
            lemma_set_bit_effect(old(self).data@[bit_byte(i)], bit, bit);
            if was_set {
                assert(final(self).data@ =~= old(self).data@);
            }
        }
    }

    /// Clears payload bit `*idx`. A bit whose byte falls outside the buffer
    /// is dropped: the buffer is never grown and never faulted on. Clearing a
    /// bit that is already clear leaves the buffer unchanged.
    pub fn clear_payload_bit(&mut self, idx: &usize)
        ensures
            final(self).data@.len() == old(self).data@.len(),
            bit_byte(*idx as int) >= old(self).data@.len() ==> final(self).data@
                == old(self).data@,
            bit_byte(*idx as int) < old(self).data@.len() ==> {
                &&& !payload_bit(final(self).data@, *idx as int)
                &&& forall|i: int|
                    0 <= i < old(self).data@.len() && i != bit_byte(*idx as int)
                        ==> final(self).data@[i] == old(self).data@[i]
                &&& forall|j: int|
                    0 <= j && j != *idx && bit_byte(j) < old(self).data@.len()
                        ==> payload_bit(final(self).data@, j) == payload_bit(
                        old(self).data@,
                        j,
                    )
                &&& !payload_bit(old(self).data@, *idx as int) ==> final(self).data@
                    == old(self).data@
            },
    {
        proof {
            assert(*idx >> 3 == *idx / 8) by (bit_vector);
        }
        let byte: usize = (*idx >> 3) + PAYLOAD_OFFSET;
        let bit: u8 = (*idx % 8) as u8;
        if byte >= self.data.len() {
            return;
        }
        let mask: u8 = 1u8 << bit;
        let updated: u8 = self.data[byte] & !mask;
        let was_clear: bool = self.data[byte] & mask == 0u8;
        self.data[byte] = updated;
        proof {
            let i = *idx as int;
            assert forall|j: int|
                0 <= j && j != i && bit_byte(j) < old(self).data@.len() implies payload_bit(
                final(self).data@,
                j,
            ) == payload_bit(old(self).data@, j) by {
                if bit_byte(j) == bit_byte(i) {
                    lemma_distinct_bits(i, j);
                    lemma_clear_bit_effect(old(self).data@[bit_byte(i)], bit, (j % 8) as u8);
                }
            };
            lemma_clear_bit_effect(old(self).data@[bit_byte(i)], bit, bit);
            if was_clear {
                assert(final(self).data@ =~= old(self).data@);
            }
        }
    }

    /// Decodes the payload into `sdr`: bit `i` of the payload becomes
    /// `sdr[i]`, for the length `sdr` already has.
    pub fn parse_to(&self, sdr: &mut Vec<bool>)
        requires
            self.data.len() >= PAYLOAD_OFFSET,
            old(sdr).len() <= (self.data.len() - PAYLOAD_OFFSET) * 8,
        ensures
            final(sdr)@ == decoded(self.data@, old(sdr).len() as int),
    {
        let n = sdr.len();
        let mut i: usize = 0;
        while i < n
            invariant
                n == sdr.len(),
                n == old(sdr).len(),
                i <= n,
                self.data.len() >= PAYLOAD_OFFSET,
                n <= (self.data.len() - PAYLOAD_OFFSET) * 8,
                forall|k: int| 0 <= k < i ==> sdr@[k] == payload_bit(self.data@, k),
            decreases n - i,
        {
            proof {
                assert(i >> 3 == i / 8) by (bit_vector);
                assert(i / 8 < self.data.len() - PAYLOAD_OFFSET) by (nonlinear_arith)
                    requires
                        (i as int) < (self.data.len() - PAYLOAD_OFFSET) * 8,
                        0 <= i,
                ;
            }
            let byte: usize = (i >> 3) + PAYLOAD_OFFSET;
            let bit: u8 = (i % 8) as u8;
            sdr[i] = self.data[byte] & (1u8 << bit) != 0u8;
            i += 1;
        }
        proof {
            assert(sdr@ =~= decoded(self.data@, n as int));
        }
    }

    /// Packs `bits` into the payload, bit `i` of the payload taking the
    /// value `bits[i]`. The header bytes and the payload bits past
    /// `bits.len()` keep their values.
    pub fn encode_payload(&mut self, bits: &Vec<bool>)
        requires
            old(self).data.len() >= PAYLOAD_OFFSET,
            bits.len() <= (old(self).data.len() - PAYLOAD_OFFSET) * 8,
        ensures
            final(self).data@.len() == old(self).data@.len(),
            forall|i: int| 0 <= i < bits@.len() ==> payload_bit(final(self).data@, i) == bits@[i],
            forall|i: int|
                0 <= i < PAYLOAD_OFFSET ==> final(self).data@[i] == old(self).data@[i],
            forall|j: int|
                bits@.len() <= j && bit_byte(j) < old(self).data@.len() ==> payload_bit(
                    final(self).data@,
                    j,
                ) == payload_bit(old(self).data@, j),
    {
        let n = bits.len();
        let mut i: usize = 0;
        while i < n
            invariant
                n == bits.len(),
                i <= n,
                self.data@.len() == old(self).data@.len(),
                self.data.len() >= PAYLOAD_OFFSET,
                n <= (self.data.len() - PAYLOAD_OFFSET) * 8,
                forall|k: int| 0 <= k < i ==> payload_bit(self.data@, k) == bits@[k],
                forall|k: int|
                    0 <= k < PAYLOAD_OFFSET ==> self.data@[k] == old(self).data@[k],
                forall|j: int|
                    i <= j && bit_byte(j) < self.data@.len() ==> payload_bit(self.data@, j)
                        == payload_bit(old(self).data@, j),
            decreases n - i,
        {
            proof {
                assert(i / 8 < self.data.len() - PAYLOAD_OFFSET) by (nonlinear_arith)
                    requires
                        (i as int) < (self.data.len() - PAYLOAD_OFFSET) * 8,
                        0 <= i,
                ;
            }
            if bits[i] {
                self.set_payload_bit(&i);
            } else {
                self.clear_payload_bit(&i);
            }
            i += 1;
        }
    }

    /// Replaces the payload by `payload`, draining it: the buffer is cut
    /// back to the header (padded with zeroes if it was shorter) and the new
    /// bytes are appended.
    pub fn set_payload(&mut self, payload: &mut Vec<u8>)
        ensures
            final(self).data@ == header_of(old(self).data@) + old(payload)@,
            final(payload)@.len() == 0,
    {
        self.data.resize(PAYLOAD_OFFSET, 0u8);
        proof {
            assert(self.data@ =~= header_of(old(self).data@));
        }
        self.data.append(payload);
    }

    /// Writes the KEY, CMD and TYPE fields from the first, second and third
    /// entry of `headers`, each taken modulo 2^16; entries that `headers`
    /// does not have leave their field as it is.
    pub fn set_headers(&mut self, headers: &Vec<i32>)
        requires
            headers.len() > 0 ==> {
                &&& old(self).data.len() >= PAYLOAD_OFFSET
                &&& MessageKey::spec_from_u16(headers[0] as u16).is_some()
            },
            headers.len() > 1 ==> MessageCommand::spec_from_u16(headers[1] as u16).is_some(),
            headers.len() > 2 ==> MessageType::spec_from_u16(headers[2] as u16).is_some(),
        ensures
            final(self).data@.len() == old(self).data@.len(),
            headers.len() == 0 ==> final(self).data@ == old(self).data@,
            headers.len() > 0 ==> prop_at(final(self).data@, KEY_OFFSET as int) == headers[0] as u16,
            headers.len() > 1 ==> prop_at(final(self).data@, CMD_OFFSET as int) == headers[1] as u16,
            headers.len() > 2 ==> prop_at(final(self).data@, TYPE_OFFSET as int) == headers[2] as u16,
            forall|i: int|
                0 <= i < old(self).data@.len() && !(KEY_OFFSET <= i < KEY_OFFSET + 2) && !(
                headers.len() > 1 && CMD_OFFSET <= i < CMD_OFFSET + 2) && !(headers.len() > 2
                    && TYPE_OFFSET <= i < TYPE_OFFSET + 2) ==> final(self).data@[i]
                    == old(self).data@[i],
    {
        if headers.len() > 0 {
            let v: u16 = #[verifier::truncate] (headers[0] as u16);
            self.set_key(MessageKey::from_u16(v).unwrap());
        }
        if headers.len() > 1 {
            let v: u16 = #[verifier::truncate] (headers[1] as u16);
            self.set_cmd(MessageCommand::from_u16(v).unwrap());
        }
        if headers.len() > 2 {
            let v: u16 = #[verifier::truncate] (headers[2] as u16);
            self.set_type(MessageType::from_u16(v).unwrap());
        }
    }

    /// The routing topic of this message: `"T"`, the TYPE field, a dot and
    /// the CMD field, the fields zero-padded to three digits. The topic is a
    /// function of the TYPE and CMD fields alone: the ID and KEY fields and
    /// the payload play no part in it.
    pub fn get_topic(&self) -> (r: String)
        requires
            self.data.len() >= CMD_OFFSET + 2,
        ensures
            r@ == topic_spec(
                prop_at(self.data@, TYPE_OFFSET as int),
                prop_at(self.data@, CMD_OFFSET as int),
            ),
    {
        proof {
            reveal_strlit("T");
            reveal_strlit(".");
        }
        let mut out = String::new();
        out.append("T");
        assert(out@ =~= seq!['T']);
        push_padded3(self.get_prop(&TYPE_OFFSET), &mut out);
        out.append(".");
        push_padded3(self.get_prop(&CMD_OFFSET), &mut out);
        proof {
            assert(out@ =~= topic_spec(
                prop_at(self.data@, TYPE_OFFSET as int),
                prop_at(self.data@, CMD_OFFSET as int),
            ));
        }
        out
    }

    /// Renders the message for a diagnostic: the four header fields in
    /// decimal and the raw bytes of the buffer. A buffer too short to carry
    /// a header and any payload renders as `"UNDEFINED"`.
    pub fn print(&self) -> (r: String)
        ensures
            r@ == print_spec(self.data@),
    {
        if self.data.len() < PAYLOAD_OFFSET + 2 {
            return "UNDEFINED".to_owned();
        }
        proof {
            reveal_strlit(">> MSG - ID: ");
            reveal_strlit(", TYPE: ");
            reveal_strlit(", CMD: ");
            reveal_strlit(", KEY: ");
            reveal_strlit("\nPAYLOAD: ");
            reveal_strlit("[");
            reveal_strlit("]");
            reveal_strlit(", ");
        }
        let mut out = String::new();
        out.append(">> MSG - ID: ");
        push_dec(self.get_prop(&ID_OFFSET), &mut out);
        out.append(", TYPE: ");
        push_dec(self.get_prop(&TYPE_OFFSET), &mut out);
        out.append(", CMD: ");
        push_dec(self.get_prop(&CMD_OFFSET), &mut out);
        out.append(", KEY: ");
        push_dec(self.get_prop(&KEY_OFFSET), &mut out);
        out.append("\nPAYLOAD: ");
        out.append("[");
        push_dec(self.data[0] as u16, &mut out);
        proof {
            assert(out@ + bytes_rest(self.data@, 1) + seq![']'] =~= print_spec(self.data@));
        }
        let n = self.data.len();
        let mut i: usize = 1;
        while i < n
            invariant
                1 <= i <= n,
                n == self.data.len(),
                n >= PAYLOAD_OFFSET + 2,
                out@ + bytes_rest(self.data@, i as int) + seq![']'] == print_spec(self.data@),
            decreases n - i,
        {
            proof {
                reveal_strlit(", ");
            }
            let ghost before = out@;
            out.append(", ");
            push_dec(self.data[i] as u16, &mut out);
            proof {
                assert(out@ =~= before + seq![',', ' '] + dec_digits(self.data@[i as int] as int));
                assert(out@ + bytes_rest(self.data@, i as int + 1) + seq![']'] =~= before
                    + bytes_rest(self.data@, i as int) + seq![']']);
            }
            i += 1;
        }
        out.append("]");
        proof {
            assert(out@ =~= print_spec(self.data@));
        }
        out
    }
}

/// The topic string of a frame whose TYPE field holds `t` and whose CMD
/// field holds `c`.
pub open spec fn topic_spec(t: u16, c: u16) -> Seq<char> {
    seq!['T'] + padded3(t as int) + seq!['.'] + padded3(c as int)
}

/// Topic determinism: two frames that agree on their TYPE and CMD bytes
/// have the same topic, whatever their ID and KEY fields or their payloads
/// hold.
pub proof fn lemma_topic_depends_only_on_type_cmd(d1: Seq<u8>, d2: Seq<u8>)
    requires
        d1.len() >= CMD_OFFSET + 2,
        d2.len() >= CMD_OFFSET + 2,
        forall|i: int| TYPE_OFFSET <= i < CMD_OFFSET + 2 ==> d1[i] == d2[i],
    ensures
        topic_spec(prop_at(d1, TYPE_OFFSET as int), prop_at(d1, CMD_OFFSET as int)) == topic_spec(
            prop_at(d2, TYPE_OFFSET as int),
            prop_at(d2, CMD_OFFSET as int),
        ),
{
}

/// The diagnostic rendering of the bytes of `data` from index `i` on:
/// `", "` and the decimal value of each byte.
pub open spec fn bytes_rest(data: Seq<u8>, i: int) -> Seq<char>
    decreases data.len() - i,
{
    if i < 0 || i >= data.len() {
        Seq::empty()
    } else {
        seq![',', ' '] + dec_digits(data[i] as int) + bytes_rest(data, i + 1)
    }
}

/// The diagnostic rendering of a whole buffer: its bytes in decimal,
/// comma-separated and bracketed.
pub open spec fn bytes_debug(data: Seq<u8>) -> Seq<char> {
    if data.len() == 0 {
        "[]"@
    } else {
        seq!['['] + dec_digits(data[0] as int) + bytes_rest(data, 1) + seq![']']
    }
}

/// The diagnostic rendering of a message: its header fields in decimal and
/// its raw bytes, or `"UNDEFINED"` for a buffer too short to carry a header
/// and any payload.
pub open spec fn print_spec(data: Seq<u8>) -> Seq<char> {
    if data.len() < PAYLOAD_OFFSET + 2 {
        "UNDEFINED"@
    } else {
        ">> MSG - ID: "@ + dec_digits(prop_at(data, ID_OFFSET as int) as int) + ", TYPE: "@
            + dec_digits(prop_at(data, TYPE_OFFSET as int) as int) + ", CMD: "@ + dec_digits(
            prop_at(data, CMD_OFFSET as int) as int,
        ) + ", KEY: "@ + dec_digits(prop_at(data, KEY_OFFSET as int) as int) + "\nPAYLOAD: "@
            + bytes_debug(data)
    }
}

/// The header bytes of `data`: its first eight bytes, padded with zeroes
/// if the buffer is shorter than a header.
pub open spec fn header_of(data: Seq<u8>) -> Seq<u8> {
    if data.len() >= PAYLOAD_OFFSET {
        data.subrange(0, PAYLOAD_OFFSET as int)
    } else {
        data + Seq::new((PAYLOAD_OFFSET - data.len()) as nat, |i: int| 0u8)
    }
}

/// The boolean sequence of length `n` that the payload of `data` carries.
pub open spec fn decoded(data: Seq<u8>, n: int) -> Seq<bool> {
    Seq::new(n as nat, |i: int| payload_bit(data, i))
}

/// Round trip of the payload: a buffer that carries `bits` decodes to
/// exactly `bits`, for any length up to the payload capacity.
pub proof fn lemma_payload_round_trip(data: Seq<u8>, bits: Seq<bool>)
    requires
        data.len() >= PAYLOAD_OFFSET,
        bits.len() <= (data.len() - PAYLOAD_OFFSET) * 8,
        forall|i: int| 0 <= i < bits.len() ==> payload_bit(data, i) == bits[i],
    ensures
        decoded(data, bits.len() as int) == bits,
{
    assert(decoded(data, bits.len() as int) =~= bits);
}

} // verus!
