//! The hooks through which the name resolver learns of changes to the network configuration.
//!
//! There is one resolver, so each hook has at most one listener.

use crate::net::network_order::{be_value, law_be_value_of_four};
use crate::net::udp::NetMemResponse;
use vstd::prelude::*;

verus! {

/// A change to listen for.
#[derive(Clone, Copy, Debug, PartialEq, Eq, Structural)]
pub enum HookKind {
    /// A name server with an IPv4 address is to be added.
    Ipv4,
    /// A name server with an IPv6 address is to be added.
    Ipv6,
    /// All name servers are to be forgotten.
    AllClear,
}

/// Where a notification goes.
#[derive(Clone, Copy, Debug)]
pub struct ScalarHook {
    /// The connection to the listener.
    pub cid: u32,
    /// The operation that the listener wants to be called with.
    pub op: u32,
    /// The arguments that the listener wants to be called with.
    pub args: [Option<u32>; 4],
}

/// A call of a listener.
#[derive(Clone, Copy, Debug)]
pub struct Notification {
    pub hook: ScalarHook,
    /// The arguments that take the place of those of the hook, if any.
    pub custom_args: Option<[Option<u32>; 4]>,
}

/// The hooks of the name resolver.
#[derive(Clone, Copy, Debug)]
pub struct DnsHooks {
    pub ipv4: Option<ScalarHook>,
    pub ipv6: Option<ScalarHook>,
    pub allclear: Option<ScalarHook>,
}

/// The configuration that the wireless network hands out.
#[derive(Clone, Copy, Debug)]
pub struct Ipv4Conf {
    pub mac: [u8; 6],
    pub addr: [u8; 4],
    pub gtwy: [u8; 4],
    pub dns1: [u8; 4],
    pub dns2: [u8; 4],
}

/// The hooks with that of one kind replaced.
pub open spec fn with_hook(hooks: DnsHooks, kind: HookKind, hook: Option<ScalarHook>) -> DnsHooks {
    match kind {
        HookKind::Ipv4 => DnsHooks { ipv4: hook, ..hooks },
        HookKind::Ipv6 => DnsHooks { ipv6: hook, ..hooks },
        HookKind::AllClear => DnsHooks { allclear: hook, ..hooks },
    }
}

/// The state after a listener has asked for a hook: the hook stays with the one who has it.
pub open spec fn hooked(hooks: DnsHooks, kind: HookKind, hook: ScalarHook) -> DnsHooks {
    if hooks.hook(kind) is Some {
        hooks
    } else {
        with_hook(hooks, kind, Some(hook))
    }
}

/// The answer to a listener that has asked for a hook.
pub open spec fn hook_reply(hooks: DnsHooks, kind: HookKind) -> NetMemResponse {
    if hooks.hook(kind) is Some {
        NetMemResponse::AlreadyUsed
    } else {
        NetMemResponse::Done
    }
}

/// The hooks without any listener.
pub open spec fn no_hooks() -> DnsHooks {
    DnsHooks { ipv4: None, ipv6: None, allclear: None }
}

/// Whether an address is all zeros, which stands for no address.
pub open spec fn is_zero(addr: [u8; 4]) -> bool {
    addr@[0] == 0 && addr@[1] == 0 && addr@[2] == 0 && addr@[3] == 0
}

/// Whether `n` tells the resolver of the name server at `addr`, through `hook`.
pub open spec fn announces(n: Notification, hook: ScalarHook, addr: [u8; 4]) -> bool {
    &&& n.hook == hook
    &&& n.custom_args matches Some(args) && {
        &&& args@[0] matches Some(number) && number == be_value(addr@)
        &&& args@[1] is None
        &&& args@[2] is None
        &&& args@[3] is None
    }
}

/// The number that the bytes of an address write, most significant byte first.
pub fn address_number(addr: [u8; 4]) -> (number: u32)
    ensures
        number == be_value(addr@),
{
    proof {
        reveal_with_fuel(be_value, 5);
        let s = addr@;
        assert(s.drop_last().last() == s[2]);
        assert(s.drop_last().drop_last().last() == s[1]);
        assert(s.drop_last().drop_last().drop_last().last() == s[0]);
    }
    0x100_0000 * addr[0] as u32 + 0x1_0000 * addr[1] as u32 + 0x100 * addr[2] as u32 + addr[3] as u32
}

impl DnsHooks {
    /// The hook of one kind.
    pub open spec fn hook(self, kind: HookKind) -> Option<ScalarHook> {
        match kind {
            HookKind::Ipv4 => self.ipv4,
            HookKind::Ipv6 => self.ipv6,
            HookKind::AllClear => self.allclear,
        }
    }

    /// No hook has a listener.
    pub fn new() -> (hooks: Self)
        ensures
            hooks == no_hooks(),
    {
        DnsHooks { ipv4: None, ipv6: None, allclear: None }
    }

    /// Whether a hook has a listener.
    pub fn is_set(&self, kind: HookKind) -> (taken: bool)
        ensures
            taken == self.hook(kind) is Some,
    {
        match kind {
            HookKind::Ipv4 => self.ipv4.is_some(),
            HookKind::Ipv6 => self.ipv6.is_some(),
            HookKind::AllClear => self.allclear.is_some(),
        }
    }

    /// Gives a hook to a listener, unless another one has it.
    pub fn add(&mut self, kind: HookKind, hook: ScalarHook) -> (reply: NetMemResponse)
        ensures
            *final(self) == hooked(*old(self), kind, hook),
            reply == hook_reply(*old(self), kind),
    {
        if self.is_set(kind) {
            NetMemResponse::AlreadyUsed
        } else {
            match kind {
                HookKind::Ipv4 => {
                    self.ipv4 = Some(hook);
                },
                HookKind::Ipv6 => {
                    self.ipv6 = Some(hook);
                },
                HookKind::AllClear => {
                    self.allclear = Some(hook);
                },
            }
            NetMemResponse::Done
        }
    }

    /// Takes all listeners off. Returns the acknowledgement.
    pub fn clear(&mut self) -> (ack: usize)
        ensures
            *final(self) == no_hooks(),
            ack == 1,
    {
        self.ipv4 = None;
        self.ipv6 = None;
        self.allclear = None;
        1
    }

    /// The calls to make when a configuration has come in: the listeners are told to forget the
    /// name servers, then of the first name server, then of the second one if there is one.
    pub fn config_changed(&self, config: &Ipv4Conf) -> (calls: Vec<Notification>)
        ensures
            ({
                let cleared: int = if self.allclear is Some {
                    1
                } else {
                    0
                };
                let told: int = if self.ipv4 is None {
                    0
                } else if is_zero(config.dns2) {
                    1
                } else {
                    2
                };
                &&& calls@.len() == cleared + told
                &&& self.allclear matches Some(hook) ==> calls@[0] == (Notification {
                    hook,
                    custom_args: None,
                })
                &&& self.ipv4 matches Some(hook) ==> announces(calls@[cleared], hook, config.dns1)
                &&& told == 2 ==> announces(calls@[cleared + 1], self.ipv4->0, config.dns2)
            }),
    {
        let mut calls: Vec<Notification> = Vec::new();
        if let Some(hook) = self.allclear {
            calls.push(Notification { hook, custom_args: None });
        }
        if let Some(hook) = self.ipv4 {
            calls.push(
                Notification {
                    hook,
                    custom_args: Some([Some(address_number(config.dns1)), None, None, None]),
                },
            );
            let dns2: [u8; 4] = config.dns2;
            if dns2[0] != 0 || dns2[1] != 0 || dns2[2] != 0 || dns2[3] != 0 {
                calls.push(
                    Notification {
                        hook,
                        custom_args: Some([Some(address_number(dns2)), None, None, None]),
                    },
                );
            }
        }
        calls
    }
}

/// A hook that has been given away stays with its listener: whoever asks for it next is refused.
pub proof fn law_hook_has_one_listener(
    hooks: DnsHooks,
    kind: HookKind,
    first: ScalarHook,
    second: ScalarHook,
)
    ensures
        ({
            let s = hooked(hooks, kind, first);
            &&& hook_reply(s, kind) == NetMemResponse::AlreadyUsed
            &&& hooked(s, kind, second) == s
        }),
{
}

/// Each hook is given away on its own.
pub proof fn law_hooks_are_independent(
    hooks: DnsHooks,
    kind: HookKind,
    other: HookKind,
    hook: ScalarHook,
)
    requires
        kind != other,
    ensures
        hooked(hooks, kind, hook).hook(other) == hooks.hook(other),
        hook_reply(hooked(hooks, kind, hook), other) == hook_reply(hooks, other),
{
}

/// Once all listeners have been taken off, every hook can be had again.
pub proof fn law_unhooking_frees(kind: HookKind, hook: ScalarHook)
    ensures
        hook_reply(no_hooks(), kind) == NetMemResponse::Done,
        hooked(no_hooks(), kind, hook).hook(kind) == Some(hook),
{
}

/// A free hook goes to the listener that asks for it, who is told so, and the other two hooks stay
/// as they are. A hook that is taken stays with whom it has, and who asks is told so.
pub proof fn law_free_hook_is_given(hooks: DnsHooks, hook: ScalarHook)
    ensures
        ({
            let t = hooked(hooks, HookKind::Ipv4, hook);
            &&& hooks.ipv4 is None ==> t.ipv4 == Some(hook)
            &&& hooks.ipv4 is Some ==> t.ipv4 == hooks.ipv4
            &&& t.ipv6 == hooks.ipv6
            &&& t.allclear == hooks.allclear
            &&& hook_reply(hooks, HookKind::Ipv4) == NetMemResponse::Done <==> hooks.ipv4 is None
            &&& hook_reply(hooks, HookKind::Ipv4) == NetMemResponse::AlreadyUsed <==> hooks.ipv4 is Some
        }),
        ({
            let t = hooked(hooks, HookKind::Ipv6, hook);
            &&& hooks.ipv6 is None ==> t.ipv6 == Some(hook)
            &&& hooks.ipv6 is Some ==> t.ipv6 == hooks.ipv6
            &&& t.ipv4 == hooks.ipv4
            &&& t.allclear == hooks.allclear
            &&& hook_reply(hooks, HookKind::Ipv6) == NetMemResponse::Done <==> hooks.ipv6 is None
            &&& hook_reply(hooks, HookKind::Ipv6) == NetMemResponse::AlreadyUsed <==> hooks.ipv6 is Some
        }),
        ({
            let t = hooked(hooks, HookKind::AllClear, hook);
            &&& hooks.allclear is None ==> t.allclear == Some(hook)
            &&& hooks.allclear is Some ==> t.allclear == hooks.allclear
            &&& t.ipv4 == hooks.ipv4
            &&& t.ipv6 == hooks.ipv6
            &&& hook_reply(hooks, HookKind::AllClear) == NetMemResponse::Done <==> hooks.allclear is None
            &&& hook_reply(hooks, HookKind::AllClear) == NetMemResponse::AlreadyUsed <==> hooks.allclear is Some
        }),
        no_hooks().ipv4 is None,
        no_hooks().ipv6 is None,
        no_hooks().allclear is None,
        hooks.hook(HookKind::Ipv4) == hooks.ipv4,
        hooks.hook(HookKind::Ipv6) == hooks.ipv6,
        hooks.hook(HookKind::AllClear) == hooks.allclear,
{
}

/// A notification tells of a name server by the four bytes of its address, most significant first,
/// in one number, and of nothing else. There is no name server exactly where all four bytes are zero.
pub proof fn law_name_server_is_announced_by_address(n: Notification, hook: ScalarHook, addr: [u8; 4])
    ensures
        announces(n, hook, addr) ==> {
            &&& n.hook == hook
            &&& n.custom_args is Some
            &&& n.custom_args->0@[0] is Some
            &&& n.custom_args->0@[0]->0 == 0x100_0000 * addr@[0] + 0x1_0000 * addr@[1] + 0x100
                * addr@[2] + addr@[3]
            &&& n.custom_args->0@[1] is None
            &&& n.custom_args->0@[2] is None
            &&& n.custom_args->0@[3] is None
        },
        is_zero(addr) <==> 0x100_0000 * addr@[0] + 0x1_0000 * addr@[1] + 0x100 * addr@[2] + addr@[3]
            == 0,
{
    law_be_value_of_four(addr@);
}

} // verus!
