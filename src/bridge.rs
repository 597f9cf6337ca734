use vstd::prelude::*;

use crate::genesis::GenesisConfig;
use crate::inbound::{spec_payout, spec_reward, spec_validate, BasicInboundChannel, IncentivizedInboundChannel, Message, MessageProof};
use crate::ledger::{spec_seed, AssetLedger};
use crate::light_client::LightClient;
use crate::outbound::{BasicOutboundChannel, IncentivizedOutboundChannel};
use crate::types::{AccountId, Address, BridgeError};

verus! {

/// The bridge applications that inbound payloads are addressed to.
#[derive(Clone, Copy, Debug, PartialEq, Eq, Structural)]
pub enum App {
    Dot,
    Eth,
    Erc20,
    Erc721,
}

/// Whether `payload` is addressed to the external contract `address`: its first
/// twenty bytes are that address.
pub open spec fn addressed_to(payload: Seq<u8>, address: Address) -> bool {
    payload.len() >= 20 && payload.take(20) == address@
}

fn starts_with(payload: &Vec<u8>, address: &Address) -> (r: bool)
    ensures
        r == addressed_to(payload@, *address),
{
    if payload.len() < 20 {
        return false;
    }
    let mut i: usize = 0;
    while i < 20
        invariant
            i <= 20,
            payload@.len() >= 20,
            forall|j: int| 0 <= j < i ==> payload@[j] == address@[j],
        decreases 20 - i,
    {
        if payload[i] != address[i] {
            proof {
                assert(payload@.take(20)[i as int] != address@[i as int]);
            }
            return false;
        }
        i = i + 1;
    }
    proof {
        assert(payload@.take(20) =~= address@);
    }
    true
}

/// The external contract that each bridge application trusts.
#[derive(Clone, Copy, Debug)]
pub struct AppRegistry {
    pub dot: Address,
    pub eth: Address,
    pub erc20: Address,
    pub erc721: Address,
}

impl AppRegistry {
    /// The application that a payload is addressed to, trying DOT, ETH, ERC-20 and
    /// ERC-721 in that order.
    pub open spec fn spec_route(self, payload: Seq<u8>) -> Option<App> {
        if addressed_to(payload, self.dot) {
            Some(App::Dot)
        } else if addressed_to(payload, self.eth) {
            Some(App::Eth)
        } else if addressed_to(payload, self.erc20) {
            Some(App::Erc20)
        } else if addressed_to(payload, self.erc721) {
            Some(App::Erc721)
        } else {
            None
        }
    }

    /// The application that `payload` is addressed to, if any.
    pub fn route(&self, payload: &Vec<u8>) -> (r: Option<App>)
        ensures
            r == self.spec_route(payload@),
    {
        if starts_with(payload, &self.dot) {
            Some(App::Dot)
        } else if starts_with(payload, &self.eth) {
            Some(App::Eth)
        } else if starts_with(payload, &self.erc20) {
            Some(App::Erc20)
        } else if starts_with(payload, &self.erc721) {
            Some(App::Erc721)
        } else {
            None
        }
    }
}

/// The whole state of the bridge, owned in one place and changed only through the
/// operations of its parts.
pub struct Bridge {
    pub light_client: LightClient,
    pub ledger: AssetLedger,
    pub basic_inbound: BasicInboundChannel,
    pub basic_outbound: BasicOutboundChannel,
    pub incentivized_inbound: IncentivizedInboundChannel,
    pub incentivized_outbound: IncentivizedOutboundChannel,
    pub apps: AppRegistry,
}

/// Whether a genesis configuration is malformed: a zero interval or a reward above 100%.
pub open spec fn config_invalid(c: GenesisConfig) -> bool {
    c.basic_outbound_interval == 0 || c.reward_fraction > 100 || c.incentivized_outbound_interval == 0
}

impl Bridge {
    pub open spec fn wf(&self) -> bool {
        &&& self.light_client.wf()
        &&& self.ledger.wf()
        &&& self.basic_outbound.wf()
        &&& self.incentivized_inbound.wf()
        &&& self.incentivized_outbound.wf()
    }

    /// The bridge as genesis starts it. Fails with `InvalidConfig` on a malformed
    /// configuration, and otherwise with the error of seeding the ledger, if any.
    pub fn from_genesis(config: GenesisConfig) -> (r: Result<Bridge, BridgeError>)
        ensures
            config_invalid(config) ==> r == Err::<Bridge, BridgeError>(BridgeError::InvalidConfig),
            !config_invalid(config) ==> match spec_seed(config.balances@) {
                Err(e) => r == Err::<Bridge, BridgeError>(e),
                Ok(m) => r matches Ok(b) && b.wf() && b.ledger@ == m
                    && b.light_client@.headers == seq![config.initial_header]
                    && b.light_client@.cumulative_difficulty == config.initial_difficulty
                    && b.basic_inbound.source_channel_spec() == config.basic_inbound_source
                    && b.basic_inbound.nonce_spec() == 0
                    && b.basic_outbound.principal_spec() == config.basic_outbound_principal
                    && b.basic_outbound.interval_spec() == config.basic_outbound_interval
                    && b.basic_outbound.nonce_spec() == 0
                    && b.basic_outbound.pending_spec().len() == 0
                    && b.incentivized_inbound.source_channel_spec() == config.incentivized_inbound_source
                    && b.incentivized_inbound.reward_fraction_spec() == config.reward_fraction
                    && b.incentivized_inbound.treasury_spec() == config.treasury
                    && b.incentivized_inbound.nonce_spec() == 0
                    && b.incentivized_outbound.fee_spec() == config.incentivized_outbound_fee
                    && b.incentivized_outbound.interval_spec() == config.incentivized_outbound_interval
                    && b.incentivized_outbound.nonce_spec() == 0
                    && b.incentivized_outbound.pending_spec().len() == 0
                    && b.incentivized_outbound.pending_fees_spec() == 0
                    && b.apps == (AppRegistry {
                        dot: config.dot_app,
                        eth: config.eth_app,
                        erc20: config.erc20_app,
                        erc721: config.erc721_app,
                    }),
            },
    {
        let basic_outbound = match BasicOutboundChannel::new(config.basic_outbound_principal, config.basic_outbound_interval) {
            Ok(ch) => ch,
            Err(e) => {
                return Err(e);
            },
        };
        let incentivized_inbound = match IncentivizedInboundChannel::new(
            config.incentivized_inbound_source,
            config.reward_fraction,
            config.treasury,
        ) {
            Ok(ch) => ch,
            Err(e) => {
                return Err(e);
            },
        };
        let incentivized_outbound = match IncentivizedOutboundChannel::new(
            config.incentivized_outbound_fee,
            config.incentivized_outbound_interval,
        ) {
            Ok(ch) => ch,
            Err(e) => {
                return Err(e);
            },
        };
        let ledger = match AssetLedger::from_balances(&config.balances) {
            Ok(l) => l,
            Err(e) => {
                return Err(e);
            },
        };
        Ok(Bridge {
            light_client: LightClient::new(config.initial_header, config.initial_difficulty),
            ledger,
            basic_inbound: BasicInboundChannel::new(config.basic_inbound_source),
            basic_outbound,
            incentivized_inbound,
            incentivized_outbound,
            apps: AppRegistry {
                dot: config.dot_app,
                eth: config.eth_app,
                erc20: config.erc20_app,
                erc721: config.erc721_app,
            },
        })
    }

    /// Delivers `message` through the basic inbound channel and names the application
    /// its payload is addressed to; a rejected message changes nothing.
    pub fn deliver_basic(&mut self, message: &Message, proof: &MessageProof) -> (r: Result<Option<App>, BridgeError>)
        requires
            old(self).wf(),
        ensures
            final(self).wf(),
            final(self).light_client == old(self).light_client,
            final(self).ledger == old(self).ledger,
            final(self).apps == old(self).apps,
            final(self).basic_inbound.source_channel_spec() == old(self).basic_inbound.source_channel_spec(),
            match spec_validate(
                old(self).basic_inbound.source_channel_spec(),
                old(self).basic_inbound.nonce_spec(),
                old(self).light_client@,
                *message,
                *proof,
            ) {
                Ok(()) => r == Ok::<Option<App>, BridgeError>(old(self).apps.spec_route(message.payload@))
                    && final(self).basic_inbound.nonce_spec() == message.nonce,
                Err(e) => r == Err::<Option<App>, BridgeError>(e)
                    && final(self).basic_inbound.nonce_spec() == old(self).basic_inbound.nonce_spec(),
            },
    {
        match self.basic_inbound.submit(&self.light_client, message, proof) {
            Ok(()) => Ok(self.apps.route(&message.payload)),
            Err(e) => Err(e),
        }
    }

    /// Delivers `message` through the incentivized inbound channel, paying `relayer`
    /// and the treasury, and names the application its payload is addressed to; a
    /// rejected message changes nothing.
    pub fn deliver_incentivized(
        &mut self,
        message: &Message,
        proof: &MessageProof,
        relayer: &AccountId,
    ) -> (r: Result<Option<App>, BridgeError>)
        requires
            old(self).wf(),
        ensures
            final(self).wf(),
            final(self).light_client == old(self).light_client,
            final(self).apps == old(self).apps,
            final(self).incentivized_inbound.source_channel_spec() == old(self).incentivized_inbound.source_channel_spec(),
            final(self).incentivized_inbound.reward_fraction_spec() == old(self).incentivized_inbound.reward_fraction_spec(),
            final(self).incentivized_inbound.treasury_spec() == old(self).incentivized_inbound.treasury_spec(),
            ({
                let v = spec_validate(
                    old(self).incentivized_inbound.source_channel_spec(),
                    old(self).incentivized_inbound.nonce_spec(),
                    old(self).light_client@,
                    *message,
                    *proof,
                );
                let pay = spec_payout(
                    old(self).ledger@,
                    message.fee,
                    spec_reward(message.fee, old(self).incentivized_inbound.reward_fraction_spec()) as u128,
                    *relayer,
                    old(self).incentivized_inbound.treasury_spec(),
                );
                if v is Err {
                    r == Err::<Option<App>, BridgeError>(v->Err_0)
                        && final(self).incentivized_inbound.nonce_spec() == old(self).incentivized_inbound.nonce_spec()
                        && final(self).ledger@ == old(self).ledger@
                } else if pay is Err {
                    r == Err::<Option<App>, BridgeError>(pay->Err_0)
                        && final(self).incentivized_inbound.nonce_spec() == old(self).incentivized_inbound.nonce_spec()
                        && final(self).ledger@ == old(self).ledger@
                } else {
                    r == Ok::<Option<App>, BridgeError>(old(self).apps.spec_route(message.payload@))
                        && final(self).incentivized_inbound.nonce_spec() == message.nonce
                        && final(self).ledger@ == pay->Ok_0
                }
            }),
    {
        match self.incentivized_inbound.submit(&self.light_client, &mut self.ledger, message, proof, relayer) {
            Ok(()) => Ok(self.apps.route(&message.payload)),
            Err(e) => Err(e),
        }
    }
}

} // verus!
