//! The messages of the protocol, as values.

use vstd::prelude::*;

use crate::protocol::constants;
use crate::protocol::octets::{bits_of_int, from_bits, int_of_bits};

verus! {

/// The header that every request and reply starts with.
#[derive(Debug, Clone, Copy, PartialEq, Eq, Structural)]
pub struct UsbipHeaderBasic {
    pub command: u32,
    pub seqnum: u32,
    pub devid: u32,
    pub direction: u32,
    pub ep: u32,
}

/// The part of a submit request after the basic header.
#[derive(Debug, Clone, Copy, PartialEq, Eq)]
pub struct UsbipHeaderCmdSubmit {
    pub transfer_flags: u32,
    pub transfer_buffer_length: i32,
    pub start_frame: i32,
    pub number_of_packets: i32,
    pub interval: i32,
    pub setup: [u8; 8],
}

/// The part of a submit reply after the basic header.
#[derive(Debug, Clone, Copy, PartialEq, Eq)]
pub struct UsbipHeaderRetSubmit {
    pub status: i32,
    pub actual_length: i32,
    pub start_frame: i32,
    pub number_of_packets: i32,
    pub error_count: i32,
    pub setup: [u8; 8],
}

/// The part of an unlink request after the basic header.
#[derive(Debug, Clone, Copy, PartialEq, Eq)]
pub struct UsbipHeaderCmdUnlink {
    pub seqnum: u32,
    pub __padding: [u32; 6],
}

/// The part of an unlink reply after the basic header.
#[derive(Debug, Clone, Copy, PartialEq, Eq)]
pub struct UsbipHeaderRetUnlink {
    pub status: i32,
    pub __padding: [u32; 6],
}

/// The request to import a device.
#[derive(Debug, Clone, Copy, PartialEq, Eq)]
pub struct OpReqImport {
    pub status: u32,
    pub path: [u8; 256],
    pub busid: [u8; 32],
}

/// The reply to a request to import a device.
#[derive(Debug, Clone, Copy, PartialEq, Eq)]
pub struct OpRepImport {
    pub status: u32,
    pub path: [u8; 256],
    pub busid: [u8; 32],
    pub busnum: u32,
    pub devnum: u32,
    pub speed: u32,
    pub id_vendor: u16,
    pub id_product: u16,
    pub bcd_device: u16,
    pub b_device_class: u8,
    pub b_device_sub_class: u8,
    pub b_device_protocol: u8,
    pub b_configuration_value: u8,
    pub b_num_configurations: u8,
    pub b_num_interfaces: u8,
}

/// A request or reply without its payload. The command in `base` says how `u` is to be read.
#[derive(Debug, Clone, Copy)]
pub struct UsbipHeader {
    pub base: UsbipHeaderBasic,
    pub u: UsbipHeaderUnion,
}

/// The 28 bytes after the basic header, as seven words that carry no mark of what they stand
/// for: any of the four command-specific parts can be read out of them. A signed field is
/// kept as its two's-complement bit pattern, and the eight setup bytes as two words with the
/// first byte least significant.
#[derive(Clone, Copy)]
pub struct UsbipHeaderUnion {
    pub words: [u32; 7],
}

/// `std::fmt::Formatter`, which a value is shown by.
#[verifier::external_type_specification]
#[verifier::external_body]
pub struct ExFormatter<'a>(std::fmt::Formatter<'a>);

/// `std::fmt::Error`, which says that a value could not be shown.
#[verifier::external_type_specification]
#[verifier::external_body]
pub struct ExFmtError(std::fmt::Error);

/// `std::fmt::DebugStruct`, a struct in the middle of being shown.
#[verifier::external_type_specification]
#[verifier::external_body]
pub struct ExDebugStruct<'a, 'b: 'a>(std::fmt::DebugStruct<'a, 'b>);

/// `std::fmt::Formatter::debug_struct` starts to show a struct. Nothing is claimed of it.
pub assume_specification<'a, 'b>[ std::fmt::Formatter::<'a>::debug_struct ](
    f: &'b mut std::fmt::Formatter<'a>,
    name: &str,
) -> std::fmt::DebugStruct<'b, 'a>;

/// `std::fmt::DebugStruct::finish_non_exhaustive` ends it, and shows that there are fields which
/// are left out. Nothing is claimed of it.
pub assume_specification<'a, 'b: 'a>[ std::fmt::DebugStruct::<'a, 'b>::finish_non_exhaustive ](
    shown: &mut std::fmt::DebugStruct<'a, 'b>,
) -> std::fmt::Result;

/// Without a command the words cannot be told apart, so they are not shown.
impl std::fmt::Debug for UsbipHeaderUnion {
    fn fmt(&self, f: &mut std::fmt::Formatter<'_>) -> std::fmt::Result {
        f.debug_struct("UsbipHeaderUnion").finish_non_exhaustive()
    }
}

/// The word whose bytes are `a`, `b`, `c`, `d`, least significant first.
pub open spec fn word_of(a: u8, b: u8, c: u8, d: u8) -> u32 {
    (a + b * 0x100 + c * 0x1_0000 + d * 0x100_0000) as u32
}

/// The bytes of `w`, least significant first.
pub open spec fn bytes_of_word(w: u32) -> (u8, u8, u8, u8) {
    (
        (w % 0x100) as u8,
        (w / 0x100 % 0x100) as u8,
        (w / 0x1_0000 % 0x100) as u8,
        (w / 0x100_0000) as u8,
    )
}

/// The eight bytes of two words, least significant first in each.
pub open spec fn setup_of_words(low: u32, high: u32) -> [u8; 8] {
    let l = bytes_of_word(low);
    let h = bytes_of_word(high);
    [l.0, l.1, l.2, l.3, h.0, h.1, h.2, h.3]
}

fn pack_word(a: u8, b: u8, c: u8, d: u8) -> (w: u32)
    ensures
        w == word_of(a, b, c, d),
{
    a as u32 + b as u32 * 0x100 + c as u32 * 0x1_0000 + d as u32 * 0x100_0000
}

fn unpack_setup(low: u32, high: u32) -> (setup: [u8; 8])
    ensures
        setup == setup_of_words(low, high),
{
    let setup = [
        (low % 0x100) as u8,
        (low / 0x100 % 0x100) as u8,
        (low / 0x1_0000 % 0x100) as u8,
        (low / 0x100_0000) as u8,
        (high % 0x100) as u8,
        (high / 0x100 % 0x100) as u8,
        (high / 0x1_0000 % 0x100) as u8,
        (high / 0x100_0000) as u8,
    ];
    assert(setup =~= setup_of_words(low, high));
    setup
}

/// The bytes of a word are the bytes that it was made of.
proof fn lemma_word_round_trip(a: u8, b: u8, c: u8, d: u8)
    ensures
        bytes_of_word(word_of(a, b, c, d)) == (a, b, c, d),
{
    let w = word_of(a, b, c, d);
    assert(w == a + b * 0x100 + c * 0x1_0000 + d * 0x100_0000);
    assert(w / 0x100 == b + c * 0x100 + d * 0x1_0000);
    assert(w / 0x1_0000 == c + d * 0x100);
    assert(w / 0x100_0000 == d);
}

/// Eight bytes packed into two words are found again.
proof fn lemma_setup_round_trip(s: [u8; 8])
    ensures
        setup_of_words(word_of(s[0], s[1], s[2], s[3]), word_of(s[4], s[5], s[6], s[7])) == s,
{
    lemma_word_round_trip(s[0], s[1], s[2], s[3]);
    lemma_word_round_trip(s[4], s[5], s[6], s[7]);
    assert(setup_of_words(word_of(s[0], s[1], s[2], s[3]), word_of(s[4], s[5], s[6], s[7]))
        =~= s);
}

impl UsbipHeaderUnion {
    /// The words, read as a submit request.
    pub open spec fn cmd_submit(self) -> UsbipHeaderCmdSubmit {
        UsbipHeaderCmdSubmit {
            transfer_flags: self.words[0],
            transfer_buffer_length: from_bits(self.words[1]),
            start_frame: from_bits(self.words[2]),
            number_of_packets: from_bits(self.words[3]),
            interval: from_bits(self.words[4]),
            setup: setup_of_words(self.words[5], self.words[6]),
        }
    }

    /// The words, read as a submit reply.
    pub open spec fn ret_submit(self) -> UsbipHeaderRetSubmit {
        UsbipHeaderRetSubmit {
            status: from_bits(self.words[0]),
            actual_length: from_bits(self.words[1]),
            start_frame: from_bits(self.words[2]),
            number_of_packets: from_bits(self.words[3]),
            error_count: from_bits(self.words[4]),
            setup: setup_of_words(self.words[5], self.words[6]),
        }
    }

    /// The words, read as an unlink request.
    pub open spec fn cmd_unlink(self) -> UsbipHeaderCmdUnlink {
        UsbipHeaderCmdUnlink {
            seqnum: self.words[0],
            __padding: [
                self.words[1],
                self.words[2],
                self.words[3],
                self.words[4],
                self.words[5],
                self.words[6],
            ],
        }
    }

    /// The words, read as an unlink reply.
    pub open spec fn ret_unlink(self) -> UsbipHeaderRetUnlink {
        UsbipHeaderRetUnlink {
            status: from_bits(self.words[0]),
            __padding: [
                self.words[1],
                self.words[2],
                self.words[3],
                self.words[4],
                self.words[5],
                self.words[6],
            ],
        }
    }

    /// The words of a submit request.
    pub fn from_cmd_submit(cmd: UsbipHeaderCmdSubmit) -> (u: Self)
        ensures
            u.cmd_submit() == cmd,
    {
        let s = cmd.setup;
        let u = UsbipHeaderUnion {
            words: [
                cmd.transfer_flags,
                bits_of_int(cmd.transfer_buffer_length),
                bits_of_int(cmd.start_frame),
                bits_of_int(cmd.number_of_packets),
                bits_of_int(cmd.interval),
                pack_word(s[0], s[1], s[2], s[3]),
                pack_word(s[4], s[5], s[6], s[7]),
            ],
        };
        proof {
            lemma_setup_round_trip(s);
        }
        u
    }

    /// The words of a submit reply.
    pub fn from_ret_submit(ret: UsbipHeaderRetSubmit) -> (u: Self)
        ensures
            u.ret_submit() == ret,
    {
        let s = ret.setup;
        let u = UsbipHeaderUnion {
            words: [
                bits_of_int(ret.status),
                bits_of_int(ret.actual_length),
                bits_of_int(ret.start_frame),
                bits_of_int(ret.number_of_packets),
                bits_of_int(ret.error_count),
                pack_word(s[0], s[1], s[2], s[3]),
                pack_word(s[4], s[5], s[6], s[7]),
            ],
        };
        proof {
            lemma_setup_round_trip(s);
        }
        u
    }

    /// The words of an unlink request.
    pub fn from_cmd_unlink(cmd: UsbipHeaderCmdUnlink) -> (u: Self)
        ensures
            u.cmd_unlink() == cmd,
    {
        let p = cmd.__padding;
        let u = UsbipHeaderUnion { words: [cmd.seqnum, p[0], p[1], p[2], p[3], p[4], p[5]] };
        assert(u.cmd_unlink().__padding =~= p);
        u
    }

    /// The words of an unlink reply.
    pub fn from_ret_unlink(ret: UsbipHeaderRetUnlink) -> (u: Self)
        ensures
            u.ret_unlink() == ret,
    {
        let p = ret.__padding;
        let u = UsbipHeaderUnion {
            words: [bits_of_int(ret.status), p[0], p[1], p[2], p[3], p[4], p[5]],
        };
        assert(u.ret_unlink().__padding =~= p);
        u
    }

    /// Reads the words as a submit request.
    pub fn to_cmd_submit(&self) -> (cmd: UsbipHeaderCmdSubmit)
        ensures
            cmd == self.cmd_submit(),
    {
        UsbipHeaderCmdSubmit {
            transfer_flags: self.words[0],
            transfer_buffer_length: int_of_bits(self.words[1]),
            start_frame: int_of_bits(self.words[2]),
            number_of_packets: int_of_bits(self.words[3]),
            interval: int_of_bits(self.words[4]),
            setup: unpack_setup(self.words[5], self.words[6]),
        }
    }

    /// Reads the words as a submit reply.
    pub fn to_ret_submit(&self) -> (ret: UsbipHeaderRetSubmit)
        ensures
            ret == self.ret_submit(),
    {
        UsbipHeaderRetSubmit {
            status: int_of_bits(self.words[0]),
            actual_length: int_of_bits(self.words[1]),
            start_frame: int_of_bits(self.words[2]),
            number_of_packets: int_of_bits(self.words[3]),
            error_count: int_of_bits(self.words[4]),
            setup: unpack_setup(self.words[5], self.words[6]),
        }
    }

    /// Reads the words as an unlink request.
    pub fn to_cmd_unlink(&self) -> (cmd: UsbipHeaderCmdUnlink)
        ensures
            cmd == self.cmd_unlink(),
    {
        let w = self.words;
        let cmd = UsbipHeaderCmdUnlink {
            seqnum: w[0],
            __padding: [w[1], w[2], w[3], w[4], w[5], w[6]],
        };
        assert(cmd.__padding =~= self.cmd_unlink().__padding);
        cmd
    }

    /// Reads the words as an unlink reply.
    pub fn to_ret_unlink(&self) -> (ret: UsbipHeaderRetUnlink)
        ensures
            ret == self.ret_unlink(),
    {
        let w = self.words;
        let ret = UsbipHeaderRetUnlink {
            status: int_of_bits(w[0]),
            __padding: [w[1], w[2], w[3], w[4], w[5], w[6]],
        };
        assert(ret.__padding =~= self.ret_unlink().__padding);
        ret
    }
}

impl UsbipHeader {
    /// The submit request that this header carries, if it is one.
    pub fn cmd_submit(&self) -> (cmd: Option<UsbipHeaderCmdSubmit>)
        ensures
            cmd == if self.base.command == constants::CMD_SUBMIT {
                Some(self.u.cmd_submit())
            } else {
                None
            },
    {
        if self.base.command == constants::CMD_SUBMIT {
            Some(self.u.to_cmd_submit())
        } else {
            None
        }
    }

    /// The submit reply that this header carries, if it is one.
    pub fn ret_submit(&self) -> (ret: Option<UsbipHeaderRetSubmit>)
        ensures
            ret == if self.base.command == constants::RET_SUBMIT {
                Some(self.u.ret_submit())
            } else {
                None
            },
    {
        if self.base.command == constants::RET_SUBMIT {
            Some(self.u.to_ret_submit())
        } else {
            None
        }
    }

    /// The unlink request that this header carries, if it is one.
    pub fn cmd_unlink(&self) -> (cmd: Option<UsbipHeaderCmdUnlink>)
        ensures
            cmd == if self.base.command == constants::CMD_UNLINK {
                Some(self.u.cmd_unlink())
            } else {
                None
            },
    {
        if self.base.command == constants::CMD_UNLINK {
            Some(self.u.to_cmd_unlink())
        } else {
            None
        }
    }

    /// The unlink reply that this header carries, if it is one.
    pub fn ret_unlink(&self) -> (ret: Option<UsbipHeaderRetUnlink>)
        ensures
            ret == if self.base.command == constants::RET_UNLINK {
                Some(self.u.ret_unlink())
            } else {
                None
            },
    {
        if self.base.command == constants::RET_UNLINK {
            Some(self.u.to_ret_unlink())
        } else {
            None
        }
    }
}

/// Without a command the words cannot be told apart, so all of them compare equal.
impl PartialEq for UsbipHeaderUnion {
    fn eq(&self, _other: &Self) -> (equal: bool) {
        true
    }
}

impl vstd::std_specs::cmp::PartialEqSpecImpl for UsbipHeaderUnion {
    open spec fn obeys_eq_spec() -> bool {
        true
    }

    open spec fn eq_spec(&self, other: &Self) -> bool {
        true
    }
}

impl Eq for UsbipHeaderUnion {

}

/// Headers are compared by their basic parts.
impl PartialEq for UsbipHeader {
    fn eq(&self, other: &Self) -> (equal: bool) {
        self.base == other.base
    }
}

impl vstd::std_specs::cmp::PartialEqSpecImpl for UsbipHeader {
    open spec fn obeys_eq_spec() -> bool {
        true
    }

    open spec fn eq_spec(&self, other: &Self) -> bool {
        self.base == other.base
    }
}

impl Eq for UsbipHeader {

}

/// A command-specific part that says which command it belongs to.
#[derive(Debug, Clone, PartialEq, Eq)]
pub enum CommandSpecific {
    CmdSubmit(UsbipHeaderCmdSubmit),
    RetSubmit(UsbipHeaderRetSubmit),
    CmdUnlink(UsbipHeaderCmdUnlink),
    RetUnlink(UsbipHeaderRetUnlink),
}

/// The command-specific part of `command` with every field zero, if there is such a command.
pub open spec fn blank_part(command: u32) -> Option<CommandSpecific> {
    if command == constants::CMD_SUBMIT {
        Some(
            CommandSpecific::CmdSubmit(
                UsbipHeaderCmdSubmit {
                    transfer_flags: 0,
                    transfer_buffer_length: 0,
                    start_frame: 0,
                    number_of_packets: 0,
                    interval: 0,
                    setup: [0u8, 0u8, 0u8, 0u8, 0u8, 0u8, 0u8, 0u8],
                },
            ),
        )
    } else if command == constants::RET_SUBMIT {
        Some(
            CommandSpecific::RetSubmit(
                UsbipHeaderRetSubmit {
                    status: 0,
                    actual_length: 0,
                    start_frame: 0,
                    number_of_packets: 0,
                    error_count: 0,
                    setup: [0u8, 0u8, 0u8, 0u8, 0u8, 0u8, 0u8, 0u8],
                },
            ),
        )
    } else if command == constants::CMD_UNLINK {
        Some(
            CommandSpecific::CmdUnlink(
                UsbipHeaderCmdUnlink {
                    seqnum: 0,
                    __padding: [0u32, 0u32, 0u32, 0u32, 0u32, 0u32],
                },
            ),
        )
    } else if command == constants::RET_UNLINK {
        Some(
            CommandSpecific::RetUnlink(
                UsbipHeaderRetUnlink {
                    status: 0,
                    __padding: [0u32, 0u32, 0u32, 0u32, 0u32, 0u32],
                },
            ),
        )
    } else {
        None
    }
}

impl CommandSpecific {
    /// The part of `command` with every field zero; nothing for an unknown command.
    pub fn from_command(command: u32) -> (part: Option<Self>)
        ensures
            part == blank_part(command),
    {
        let setup: [u8; 8] = [0u8; 8];
        let padding: [u32; 6] = [0u32; 6];
        assert(setup =~= [0u8, 0u8, 0u8, 0u8, 0u8, 0u8, 0u8, 0u8]);
        assert(padding =~= [0u32, 0u32, 0u32, 0u32, 0u32, 0u32]);
        match command {
            constants::CMD_SUBMIT => Some(
                CommandSpecific::CmdSubmit(
                    UsbipHeaderCmdSubmit {
                        transfer_flags: 0,
                        transfer_buffer_length: 0,
                        start_frame: 0,
                        number_of_packets: 0,
                        interval: 0,
                        setup,
                    },
                ),
            ),
            constants::RET_SUBMIT => Some(
                CommandSpecific::RetSubmit(
                    UsbipHeaderRetSubmit {
                        status: 0,
                        actual_length: 0,
                        start_frame: 0,
                        number_of_packets: 0,
                        error_count: 0,
                        setup,
                    },
                ),
            ),
            constants::CMD_UNLINK => Some(
                CommandSpecific::CmdUnlink(UsbipHeaderCmdUnlink { seqnum: 0, __padding: padding }),
            ),
            constants::RET_UNLINK => Some(
                CommandSpecific::RetUnlink(UsbipHeaderRetUnlink { status: 0, __padding: padding }),
            ),
            _ => None,
        }
    }
}

/// The command of a basic header.
pub fn header_command(basic: &UsbipHeaderBasic) -> (command: u32)
    ensures
        command == basic.command,
{
    basic.command
}

} // verus!
