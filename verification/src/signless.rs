//! The signless-session registry: binds a delegated signing identity to a
//! primary address or to an off-chain account tag, and answers ping/pong
//! visits on behalf of either.

use crate::assoc::{assoc_find, distinct_keys, lemma_find_push_all, lemma_find_skip_step};
use crate::io::{ActorId, ZERO_ID};
use vstd::prelude::*;

verus! {

#[derive(Debug)]
pub struct SignlessMetaData {
    pub name: String,
}

#[derive(Debug)]
pub struct SignlessEncodingData {
    pub content: (String, String),
    pub encoding_type: (String, String),
    pub version: String,
}

#[derive(Debug)]
pub struct SignlessAccount {
    pub address: String,
    pub encoded: String,
    pub encoding: SignlessEncodingData,
    pub meta: SignlessMetaData,
}

#[derive(Debug)]
pub enum ContractStateQuery {
    LastWhoCallContract,
    SignlessAddressByAddress(ActorId),
    SignlessAddressByNoWallet(String),
    SignlessData(ActorId),
}

#[derive(Debug)]
pub enum ContractStateReply {
    LastWhoCallContract(ActorId),
    SignlessAddress(Option<ActorId>),
    SignlessData(Option<SignlessAccount>),
}

#[derive(Debug)]
pub enum ContractAction {
    Ping { user_account: (Option<ActorId>, Option<String>) },
    Pong { user_account: (Option<ActorId>, Option<String>) },
    BindSignlessAccountWithAddress { user_address: ActorId, signless_data: SignlessAccount },
    BindSignlessAccountWithNoWallet { no_wallet: String, signless_data: SignlessAccount },
}

#[derive(Clone, Copy, Debug, PartialEq, Eq)]
pub enum ContractEvent {
    GetPing,
    GetPong,
    ContractStarted,
    SignlessAccountSet,
    BadSignlessSession,
    AddressAlreadyHasSignlessAccount,
    NoWalletAlreadyHasSignlessAccount,
    SignlessAddressAlreadyEsists,
}

/// Value bound to the first entry whose string key reads as `k`.
pub open spec fn str_find(s: Seq<(String, ActorId)>, k: Seq<char>) -> Option<ActorId>
    decreases s.len(),
{
    if s.len() == 0 {
        None
    } else if s[0].0@ == k {
        Some(s[0].1)
    } else {
        str_find(s.drop_first(), k)
    }
}

/// No two entries read as the same string.
pub open spec fn str_distinct(s: Seq<(String, ActorId)>) -> bool {
    forall|i: int, j: int| 0 <= i < j < s.len() ==> s[i].0@ != s[j].0@
}

proof fn lemma_str_find_skip_step(s: Seq<(String, ActorId)>, k: Seq<char>, i: int)
    requires
        0 <= i < s.len(),
        s[i].0@ != k,
    ensures
        str_find(s.skip(i), k) == str_find(s.skip(i + 1), k),
{
    assert(s.skip(i)[0] == s[i]);
    assert(s.skip(i).drop_first() =~= s.skip(i + 1));
}

proof fn lemma_str_find_push(s: Seq<(String, ActorId)>, p: (String, ActorId), k: Seq<char>)
    requires
        str_find(s, p.0@) is None,
    ensures
        str_find(s.push(p), k) == if k == p.0@ {
            Some(p.1)
        } else {
            str_find(s, k)
        },
    decreases s.len(),
{
    if s.len() == 0 {
        assert(s.push(p)[0] == p);
        assert(s.push(p).drop_first() =~= Seq::<(String, ActorId)>::empty());
        assert(str_find(s.push(p), k) == if p.0@ == k {
            Some(p.1)
        } else {
            str_find(Seq::<(String, ActorId)>::empty(), k)
        });
    } else {
        assert(s.push(p)[0] == s[0]);
        assert(s.push(p).drop_first() =~= s.drop_first().push(p));
        lemma_str_find_push(s.drop_first(), p, k);
        if s[0].0@ == k {
            assert(str_find(s.push(p), k) == Some(s[0].1));
            assert(str_find(s, k) == Some(s[0].1));
        } else {
            assert(str_find(s.push(p), k) == str_find(s.drop_first().push(p), k));
            assert(str_find(s, k) == str_find(s.drop_first(), k));
        }
    }
}

proof fn lemma_str_find_push_all(s: Seq<(String, ActorId)>, p: (String, ActorId))
    requires
        str_distinct(s),
        str_find(s, p.0@) is None,
    ensures
        str_distinct(s.push(p)),
        forall|k: Seq<char>| #[trigger]
            str_find(s.push(p), k) == if k == p.0@ {
                Some(p.1)
            } else {
                str_find(s, k)
            },
    decreases s.len(),
{
    assert forall|k: Seq<char>| #[trigger]
        str_find(s.push(p), k) == if k == p.0@ {
            Some(p.1)
        } else {
            str_find(s, k)
        } by {
        lemma_str_find_push(s, p, k);
    }
    assert(str_find(s, p.0@) is None ==> forall|i: int| 0 <= i < s.len() ==> s[i].0@ != p.0@) by {
        lemma_str_absent(s, p.0@);
    }
    assert forall|i: int, j: int| 0 <= i < j < s.push(p).len() implies s.push(p)[i].0@ != s.push(
        p,
    )[j].0@ by {
        if j < s.len() {
            assert(s.push(p)[i] == s[i] && s.push(p)[j] == s[j]);
        } else {
            assert(s.push(p)[i] == s[i] && s.push(p)[j] == p);
        }
    }
}

proof fn lemma_str_absent(s: Seq<(String, ActorId)>, k: Seq<char>)
    requires
        str_find(s, k) is None,
    ensures
        forall|i: int| 0 <= i < s.len() ==> s[i].0@ != k,
    decreases s.len(),
{
    if s.len() > 0 {
        lemma_str_absent(s.drop_first(), k);
        assert forall|i: int| 0 <= i < s.len() implies s[i].0@ != k by {
            if i > 0 {
                assert(s.drop_first()[i - 1] == s[i]);
            }
        }
    }
}

/// Value bound to the string key `key`, if any.
fn str_map_get(v: &Vec<(String, ActorId)>, key: &String) -> (r: Option<ActorId>)
    ensures
        r == str_find(v@, key@),
{
    proof {
        assert(v@.skip(0) =~= v@);
    }
    let n = v.len();
    let mut i: usize = 0;
    while i < n
        invariant
            n == v@.len(),
            i <= n,
            str_find(v@, key@) == str_find(v@.skip(i as int), key@),
        decreases n - i,
    {
        let e = &v[i];
        if e.0 == *key {
            proof {
                assert(v@.skip(i as int)[0] == v@[i as int]);
            }
            return Some(e.1);
        }
        proof {
            lemma_str_find_skip_step(v@, key@, i as int);
        }
        i = i + 1;
    }
    proof {
        assert(v@.skip(n as int) =~= Seq::<(String, ActorId)>::empty());
    }
    None
}

/// Value bound to the account key `key`, if any.
fn actor_map_get(v: &Vec<(ActorId, ActorId)>, key: ActorId) -> (r: Option<ActorId>)
    ensures
        r == assoc_find(v@, key),
{
    proof {
        assert(v@.skip(0) =~= v@);
    }
    let n = v.len();
    let mut i: usize = 0;
    while i < n
        invariant
            n == v@.len(),
            i <= n,
            assoc_find(v@, key) == assoc_find(v@.skip(i as int), key),
        decreases n - i,
    {
        if v[i].0 == key {
            proof {
                assert(v@.skip(i as int)[0] == v@[i as int]);
            }
            return Some(v[i].1);
        }
        proof {
            lemma_find_skip_step(v@, key, i as int);
        }
        i = i + 1;
    }
    proof {
        assert(v@.skip(n as int) =~= Seq::<(ActorId, ActorId)>::empty());
    }
    None
}

/// Position of the entry of `key` in the account-data table, if any.
fn data_map_get_idx(v: &Vec<(ActorId, SignlessAccount)>, key: ActorId) -> (r: Option<usize>)
    ensures
        match r {
            Some(i) => i < v@.len() && v@[i as int].0 == key && assoc_find(v@, key) == Some(
                v@[i as int].1,
            ),
            None => assoc_find(v@, key) is None,
        },
{
    proof {
        assert(v@.skip(0) =~= v@);
    }
    let n = v.len();
    let mut i: usize = 0;
    while i < n
        invariant
            n == v@.len(),
            i <= n,
            assoc_find(v@, key) == assoc_find(v@.skip(i as int), key),
        decreases n - i,
    {
        if v[i].0 == key {
            proof {
                assert(v@.skip(i as int)[0] == v@[i as int]);
            }
            return Some(i);
        }
        proof {
            lemma_find_skip_step(v@, key, i as int);
        }
        i = i + 1;
    }
    proof {
        assert(v@.skip(n as int) =~= Seq::<(ActorId, SignlessAccount)>::empty());
    }
    None
}

/// A copy of one signless account record, equal in every field.
fn clone_signless(a: &SignlessAccount) -> (r: SignlessAccount)
    ensures
        r == *a,
{
    SignlessAccount {
        address: a.address.clone(),
        encoded: a.encoded.clone(),
        encoding: SignlessEncodingData {
            content: (a.encoding.content.0.clone(), a.encoding.content.1.clone()),
            encoding_type: (a.encoding.encoding_type.0.clone(), a.encoding.encoding_type.1.clone()),
            version: a.encoding.version.clone(),
        },
        meta: SignlessMetaData { name: a.meta.name.clone() },
    }
}

/// The registry's whole state.
pub struct ContractState {
    pub last_who_call: ActorId,
    pub signless_accounts_by_address: Vec<(ActorId, ActorId)>,
    pub signless_accounts_by_no_wallet: Vec<(String, ActorId)>,
    pub signless_data: Vec<(ActorId, SignlessAccount)>,
}

impl ContractState {
    pub open spec fn wf(self) -> bool {
        &&& distinct_keys(self.signless_accounts_by_address@)
        &&& str_distinct(self.signless_accounts_by_no_wallet@)
        &&& distinct_keys(self.signless_data@)
    }

    /// Signless identity bound to a primary address, if any.
    pub open spec fn addr_binding(self, address: ActorId) -> Option<ActorId> {
        assoc_find(self.signless_accounts_by_address@, address)
    }

    /// Signless identity bound to an off-chain account tag, if any.
    pub open spec fn no_wallet_binding(self, tag: Seq<char>) -> Option<ActorId> {
        str_find(self.signless_accounts_by_no_wallet@, tag)
    }

    /// Account record stored for a signless identity, if any.
    pub open spec fn data_of(self, caller: ActorId) -> Option<SignlessAccount> {
        assoc_find(self.signless_data@, caller)
    }

    /// A fresh registry: no caller yet, no bindings.
    pub fn new() -> (r: ContractState)
        ensures
            r.wf(),
            r.last_who_call == ZERO_ID,
            r.signless_accounts_by_address@ == Seq::<(ActorId, ActorId)>::empty(),
            r.signless_accounts_by_no_wallet@ == Seq::<(String, ActorId)>::empty(),
            r.signless_data@ == Seq::<(ActorId, SignlessAccount)>::empty(),
    {
        ContractState {
            last_who_call: ZERO_ID,
            signless_accounts_by_address: Vec::new(),
            signless_accounts_by_no_wallet: Vec::new(),
            signless_data: Vec::new(),
        }
    }

    /// Accept the session only if `no_wallet` is bound to exactly `caller`.
    pub fn check_no_wallet(&self, caller: ActorId, no_wallet: String) -> (r: Result<
        (),
        ContractEvent,
    >)
        ensures
            r is Ok <==> self.no_wallet_binding(no_wallet@) == Some(caller),
            r is Err ==> r == Err::<(), ContractEvent>(ContractEvent::BadSignlessSession),
    {
        let no_wallet_signless_address = str_map_get(&self.signless_accounts_by_no_wallet, &no_wallet);
        let signless_address = match no_wallet_signless_address {
            Some(a) => a,
            None => {
                return Err(ContractEvent::BadSignlessSession);
            }
        };
        if signless_address != caller {
            return Err(ContractEvent::BadSignlessSession);
        }
        Ok(())
    }

    /// Resolve the acting address: the queried primary address when its
    /// signless binding is exactly `caller`, or `caller` itself when no
    /// address is queried.
    pub fn get_address(&self, caller: ActorId, user_address: Option<ActorId>) -> (r: Result<
        ActorId,
        ContractEvent,
    >)
        ensures
            match user_address {
                Some(address) => {
                    &&& (r is Ok <==> self.addr_binding(address) == Some(caller))
                    &&& (r is Ok ==> r == Ok::<ActorId, ContractEvent>(address))
                    &&& (r is Err ==> r == Err::<ActorId, ContractEvent>(
                        ContractEvent::BadSignlessSession,
                    ))
                },
                None => r == Ok::<ActorId, ContractEvent>(caller),
            },
    {
        let address = match user_address {
            Some(address) => {
                let signless_address = match actor_map_get(
                    &self.signless_accounts_by_address,
                    address,
                ) {
                    Some(a) => a,
                    None => {
                        return Err(ContractEvent::BadSignlessSession);
                    }
                };
                if signless_address != caller {
                    return Err(ContractEvent::BadSignlessSession);
                }
                address
            }
            None => caller,
        };
        Ok(address)
    }

    /// Transition relation of a ping/pong visit: `good` names the reply a
    /// valid session earns.
    pub open spec fn visit_post(
        pre: Self,
        post: Self,
        caller: ActorId,
        user_account: (Option<ActorId>, Option<String>),
        good: ContractEvent,
        r: ContractEvent,
    ) -> bool {
        let maps_same = {
            &&& post.signless_accounts_by_address == pre.signless_accounts_by_address
            &&& post.signless_accounts_by_no_wallet == pre.signless_accounts_by_no_wallet
            &&& post.signless_data == pre.signless_data
        };
        match user_account.0 {
            Some(address) => if pre.addr_binding(address) == Some(caller) {
                r == good && post.last_who_call == address && maps_same
            } else {
                r == ContractEvent::BadSignlessSession && post == pre
            },
            None => match user_account.1 {
                Some(tag) => if pre.no_wallet_binding(tag@) == Some(caller) {
                    r == good && post.last_who_call == caller && maps_same
                } else {
                    r == ContractEvent::BadSignlessSession && post == pre
                },
                None => r == good && post.last_who_call == caller && maps_same,
            },
        }
    }

    /// Transition relation of `handle`.
    pub open spec fn handle_post(
        pre: Self,
        post: Self,
        caller: ActorId,
        action: ContractAction,
        r: ContractEvent,
    ) -> bool {
        match action {
            ContractAction::Ping { user_account } => Self::visit_post(
                pre,
                post,
                caller,
                user_account,
                ContractEvent::GetPing,
                r,
            ),
            ContractAction::Pong { user_account } => Self::visit_post(
                pre,
                post,
                caller,
                user_account,
                ContractEvent::GetPong,
                r,
            ),
            ContractAction::BindSignlessAccountWithAddress { user_address, signless_data } => {
                if pre.addr_binding(user_address) is Some {
                    r == ContractEvent::AddressAlreadyHasSignlessAccount && post == pre
                } else if pre.data_of(caller) is Some {
                    r == ContractEvent::SignlessAddressAlreadyEsists && post == pre
                } else {
                    &&& r == ContractEvent::SignlessAccountSet
                    &&& (forall|a: ActorId| #[trigger]
                        assoc_find(post.signless_accounts_by_address@, a) == if a == user_address {
                            Some(caller)
                        } else {
                            assoc_find(pre.signless_accounts_by_address@, a)
                        })
                    &&& (forall|a: ActorId| #[trigger]
                        assoc_find(post.signless_data@, a) == if a == caller {
                            Some(signless_data)
                        } else {
                            assoc_find(pre.signless_data@, a)
                        })
                    &&& post.signless_accounts_by_no_wallet == pre.signless_accounts_by_no_wallet
                    &&& post.last_who_call == pre.last_who_call
                }
            },
            ContractAction::BindSignlessAccountWithNoWallet { no_wallet, signless_data } => {
                if pre.no_wallet_binding(no_wallet@) is Some {
                    r == ContractEvent::NoWalletAlreadyHasSignlessAccount && post == pre
                } else if pre.data_of(caller) is Some {
                    r == ContractEvent::SignlessAddressAlreadyEsists && post == pre
                } else {
                    &&& r == ContractEvent::SignlessAccountSet
                    &&& (forall|t: Seq<char>| #[trigger]
                        str_find(post.signless_accounts_by_no_wallet@, t) == if t == no_wallet@ {
                            Some(caller)
                        } else {
                            str_find(pre.signless_accounts_by_no_wallet@, t)
                        })
                    &&& (forall|a: ActorId| #[trigger]
                        assoc_find(post.signless_data@, a) == if a == caller {
                            Some(signless_data)
                        } else {
                            assoc_find(pre.signless_data@, a)
                        })
                    &&& post.signless_accounts_by_address == pre.signless_accounts_by_address
                    &&& post.last_who_call == pre.last_who_call
                }
            },
        }
    }

    /// Process one message from the authenticated `caller`.
    pub fn handle(&mut self, caller: ActorId, action: ContractAction) -> (r: ContractEvent)
        requires
            old(self).wf(),
        ensures
            final(self).wf(),
            Self::handle_post(*old(self), *final(self), caller, action, r),
    {
        match action {
            ContractAction::Ping { user_account } => self.visit(
                caller,
                user_account,
                ContractEvent::GetPing,
            ),
            ContractAction::Pong { user_account } => self.visit(
                caller,
                user_account,
                ContractEvent::GetPong,
            ),
            ContractAction::BindSignlessAccountWithAddress { user_address, signless_data } => {
                if actor_map_get(&self.signless_accounts_by_address, user_address).is_some() {
                    return ContractEvent::AddressAlreadyHasSignlessAccount;
                }
                if data_map_get_idx(&self.signless_data, caller).is_some() {
                    return ContractEvent::SignlessAddressAlreadyEsists;
                }
                proof {
                    lemma_find_push_all(
                        self.signless_accounts_by_address@,
                        (user_address, caller),
                    );
                    lemma_find_push_all(self.signless_data@, (caller, signless_data));
                }
                self.signless_accounts_by_address.push((user_address, caller));
                self.signless_data.push((caller, signless_data));
                ContractEvent::SignlessAccountSet
            }
            ContractAction::BindSignlessAccountWithNoWallet { no_wallet, signless_data } => {
                if str_map_get(&self.signless_accounts_by_no_wallet, &no_wallet).is_some() {
                    return ContractEvent::NoWalletAlreadyHasSignlessAccount;
                }
                if data_map_get_idx(&self.signless_data, caller).is_some() {
                    return ContractEvent::SignlessAddressAlreadyEsists;
                }
                proof {
                    lemma_str_find_push_all(
                        self.signless_accounts_by_no_wallet@,
                        (no_wallet, caller),
                    );
                    lemma_find_push_all(self.signless_data@, (caller, signless_data));
                }
                self.signless_accounts_by_no_wallet.push((no_wallet, caller));
                self.signless_data.push((caller, signless_data));
                ContractEvent::SignlessAccountSet
            }
        }
    }

    /// One ping/pong visit: record who called, under the identity the
    /// session resolves to.
    fn visit(
        &mut self,
        caller: ActorId,
        user_account: (Option<ActorId>, Option<String>),
        good: ContractEvent,
    ) -> (r: ContractEvent)
        requires
            old(self).wf(),
        ensures
            final(self).wf(),
            Self::visit_post(*old(self), *final(self), caller, user_account, good, r),
    {
        let (user_address, no_wallet) = user_account;
        if user_address.is_some() {
            let address = match self.get_address(caller, user_address) {
                Ok(address) => address,
                Err(error_event) => {
                    return error_event;
                }
            };
            self.last_who_call = address;
        } else if no_wallet.is_some() {
            let tag = match no_wallet {
                Some(tag) => tag,
                None => {
                    return ContractEvent::BadSignlessSession;
                }
            };
            if let Err(error_event) = self.check_no_wallet(caller, tag) {
                return error_event;
            }
            self.last_who_call = caller;
        } else {
            self.last_who_call = caller;
        }
        good
    }

    /// Answer one read-only query.
    pub fn state_reply(&self, q: ContractStateQuery) -> (r: ContractStateReply)
        ensures
            match q {
                ContractStateQuery::LastWhoCallContract => r
                    == ContractStateReply::LastWhoCallContract(self.last_who_call),
                ContractStateQuery::SignlessAddressByAddress(address) => r
                    == ContractStateReply::SignlessAddress(self.addr_binding(address)),
                ContractStateQuery::SignlessAddressByNoWallet(tag) => r
                    == ContractStateReply::SignlessAddress(self.no_wallet_binding(tag@)),
                ContractStateQuery::SignlessData(address) => r == ContractStateReply::SignlessData(
                    self.data_of(address),
                ),
            },
    {
        match q {
            ContractStateQuery::LastWhoCallContract => ContractStateReply::LastWhoCallContract(
                self.last_who_call,
            ),
            ContractStateQuery::SignlessAddressByAddress(address) => {
                ContractStateReply::SignlessAddress(
                    actor_map_get(&self.signless_accounts_by_address, address),
                )
            }
            ContractStateQuery::SignlessAddressByNoWallet(tag) => {
                ContractStateReply::SignlessAddress(
                    str_map_get(&self.signless_accounts_by_no_wallet, &tag),
                )
            }
            ContractStateQuery::SignlessData(address) => {
                match data_map_get_idx(&self.signless_data, address) {
                    Some(i) => ContractStateReply::SignlessData(
                        Some(clone_signless(&self.signless_data[i].1)),
                    ),
                    None => ContractStateReply::SignlessData(None),
                }
            }
        }
    }
}

} // verus!
