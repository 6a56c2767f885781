use std::collections::HashMap;

use kitties::{AssetId, Balance, Error, Event, OwnerId, Payment, PaymentError, Registry};

fn alice() -> OwnerId {
    OwnerId::from_bytes([0xa1; 32])
}

fn bob() -> OwnerId {
    OwnerId::from_bytes([0xb0; 32])
}

fn carol() -> OwnerId {
    OwnerId::from_bytes([0xca; 32])
}

fn asset(n: u8) -> AssetId {
    AssetId::from_bytes([n; 32])
}

/// A funds ledger that refuses a payment the payer cannot afford.
struct Ledger {
    balances: HashMap<OwnerId, Balance>,
}

impl Ledger {
    fn with(entries: &[(OwnerId, Balance)]) -> Ledger {
        Ledger { balances: entries.iter().cloned().collect() }
    }

    fn balance(&self, who: &OwnerId) -> Balance {
        self.balances.get(who).copied().unwrap_or(0)
    }

    fn pay(&mut self, due: &Payment) -> Result<(), PaymentError> {
        let from = self.balance(&due.from);
        if from < due.amount {
            return Err(PaymentError { code: 1 });
        }
        let to = self.balance(&due.to);
        self.balances.insert(due.from, from - due.amount);
        self.balances.insert(due.to, to + due.amount);
        Ok(())
    }
}

/// Runs a purchase as a host does: ask what is due, pay, report.
fn buy(
    registry: &mut Registry,
    ledger: &mut Ledger,
    buyer: OwnerId,
    id: AssetId,
    max_price: Balance,
) -> Result<Event, Error> {
    let due = registry.payment_due(buyer, id, max_price)?;
    let paid = ledger.pay(&due);
    registry.buy_kitty(buyer, id, max_price, paid)
}

#[test]
fn mint_then_price_then_buy() {
    let mut registry = Registry::new();
    let mut ledger = Ledger::with(&[(alice(), 5), (bob(), 250)]);
    let random = [7u8; 32];

    let created = registry.create_kitty(alice(), &random);
    let id = match created {
        Ok(Event::Created(owner, id)) => {
            assert_eq!(owner, alice());
            id
        }
        other => panic!("unexpected outcome {:?}", other),
    };
    assert_eq!(registry.owner_of(&id), Some(alice()));
    assert_eq!(registry.all_kitties_count(), 1);
    assert_eq!(registry.owned_kitty_count(&alice()), 1);
    assert_eq!(registry.nonce(), 1);
    let minted = registry.kitty(&id).unwrap();
    assert_eq!(minted.id, id);
    assert_eq!(minted.dna, id);
    assert_eq!(minted.price, 0);
    assert_eq!(minted.generation, 0);

    assert_eq!(registry.set_price(alice(), id, 100), Ok(Event::PriceSet(alice(), id, 100)));
    assert_eq!(registry.kitty(&id).unwrap().price, 100);

    assert_eq!(
        buy(&mut registry, &mut ledger, bob(), id, 100),
        Ok(Event::Bought(bob(), alice(), id, 100))
    );
    assert_eq!(registry.owner_of(&id), Some(bob()));
    assert_eq!(registry.kitty(&id).unwrap().price, 0);
    assert_eq!(registry.owned_kitty_count(&alice()), 0);
    assert_eq!(registry.owned_kitty_count(&bob()), 1);
    assert_eq!(registry.kitty_of_owner_by_index(&bob(), 0), Some(id));
    assert_eq!(registry.kitty_of_owner_by_index(&alice(), 0), None);
    assert_eq!(registry.all_kitties_count(), 1);
    assert_eq!(ledger.balance(&bob()), 150);
    assert_eq!(ledger.balance(&alice()), 105);
}

#[test]
fn buying_own_asset_is_refused() {
    let mut registry = Registry::new();
    let mut ledger = Ledger::with(&[(alice(), 1000)]);
    assert_eq!(registry.mint(alice(), asset(1)), Ok(Event::Created(alice(), asset(1))));
    assert_eq!(registry.set_price(alice(), asset(1), 10), Ok(Event::PriceSet(alice(), asset(1), 10)));

    assert_eq!(registry.payment_due(alice(), asset(1), 10), Err(Error::CannotBuyOwnAsset));
    assert_eq!(
        buy(&mut registry, &mut ledger, alice(), asset(1), u128::MAX),
        Err(Error::CannotBuyOwnAsset)
    );
    assert_eq!(registry.buy_kitty(alice(), asset(1), 10, Ok(())), Err(Error::CannotBuyOwnAsset));

    assert_eq!(registry.owner_of(&asset(1)), Some(alice()));
    assert_eq!(registry.kitty(&asset(1)).unwrap().price, 10);
    assert_eq!(registry.owned_kitty_count(&alice()), 1);
    assert_eq!(registry.all_kitties_count(), 1);
    assert_eq!(ledger.balance(&alice()), 1000);
}

#[test]
fn set_price_by_non_owner_is_refused() {
    let mut registry = Registry::new();
    assert!(registry.mint(alice(), asset(1)).is_ok());
    assert!(registry.set_price(alice(), asset(1), 40).is_ok());

    assert_eq!(registry.set_price(bob(), asset(1), 1), Err(Error::NotOwner));
    assert_eq!(registry.kitty(&asset(1)).unwrap().price, 40);
    assert_eq!(registry.owner_of(&asset(1)), Some(alice()));
}

#[test]
fn set_price_of_unknown_asset_is_refused() {
    let mut registry = Registry::new();
    assert_eq!(registry.set_price(alice(), asset(9), 1), Err(Error::AssetDoesNotExist));
    assert_eq!(registry.kitty(&asset(9)), None);
    assert_eq!(registry.all_kitties_count(), 0);
}

#[test]
fn set_price_to_zero_takes_off_the_market() {
    let mut registry = Registry::new();
    let mut ledger = Ledger::with(&[(bob(), 10)]);
    assert!(registry.mint(alice(), asset(1)).is_ok());
    assert!(registry.set_price(alice(), asset(1), 5).is_ok());
    assert_eq!(registry.set_price(alice(), asset(1), 0), Ok(Event::PriceSet(alice(), asset(1), 0)));
    assert_eq!(buy(&mut registry, &mut ledger, bob(), asset(1), 5), Err(Error::NotForSale));
    assert_eq!(ledger.balance(&bob()), 10);
}

#[test]
fn minting_twice_is_refused() {
    let mut registry = Registry::new();
    assert_eq!(registry.mint(alice(), asset(1)), Ok(Event::Created(alice(), asset(1))));
    assert_eq!(registry.mint(bob(), asset(1)), Err(Error::AssetAlreadyExists));
    assert_eq!(registry.mint(alice(), asset(1)), Err(Error::AssetAlreadyExists));
    assert_eq!(registry.owner_of(&asset(1)), Some(alice()));
    assert_eq!(registry.all_kitties_count(), 1);
    assert_eq!(registry.owned_kitty_count(&alice()), 1);
    assert_eq!(registry.owned_kitty_count(&bob()), 0);
}

#[test]
fn create_kitty_with_repeated_randomness_is_refused_and_keeps_nonce() {
    let mut registry = Registry::new();
    let random = [3u8; 32];
    assert!(registry.create_kitty(alice(), &random).is_ok());
    assert_eq!(registry.nonce(), 1);
    assert_eq!(registry.create_kitty(bob(), &random), Err(Error::AssetAlreadyExists));
    assert_eq!(registry.nonce(), 1);
    assert_eq!(registry.all_kitties_count(), 1);
    assert!(registry.create_kitty(bob(), &[4u8; 32]).is_ok());
    assert_eq!(registry.nonce(), 2);
    assert_eq!(registry.all_kitties_count(), 2);
}

#[test]
fn nonce_counts_successful_mints_only() {
    let mut registry = Registry::new();
    assert!(registry.mint(alice(), asset(1)).is_ok());
    assert_eq!(registry.nonce(), 1);
    assert!(registry.mint(alice(), asset(1)).is_err());
    assert_eq!(registry.nonce(), 1);
    assert!(registry.set_price(alice(), asset(1), 3).is_ok());
    assert!(registry.transfer(alice(), bob(), asset(1)).is_ok());
    assert_eq!(registry.nonce(), 1);
    assert!(registry.mint(bob(), asset(2)).is_ok());
    assert_eq!(registry.nonce(), 2);
}

#[test]
fn global_index_lists_every_mint_once() {
    let mut registry = Registry::new();
    for n in 0..20u8 {
        let owner = if n % 2 == 0 { alice() } else { bob() };
        assert_eq!(registry.mint(owner, asset(n)), Ok(Event::Created(owner, asset(n))));
        assert_eq!(registry.mint(owner, asset(n)), Err(Error::AssetAlreadyExists));
    }
    assert_eq!(registry.all_kitties_count(), 20);
    for n in 0..20u8 {
        assert_eq!(registry.kitty_by_index(n as u64), Some(asset(n)));
        let mut seen = 0;
        for p in 0..registry.all_kitties_count() {
            if registry.kitty_by_index(p) == Some(asset(n)) {
                seen += 1;
            }
        }
        assert_eq!(seen, 1);
    }
    assert_eq!(registry.kitty_by_index(20), None);
    assert_eq!(registry.kitty_by_index(u64::MAX), None);
    assert_eq!(registry.owned_kitty_count(&alice()), 10);
    assert_eq!(registry.owned_kitty_count(&bob()), 10);
}

#[test]
fn every_asset_is_in_its_owners_index_once() {
    let mut registry = Registry::new();
    let owners = [alice(), bob(), carol()];
    for n in 0..12u8 {
        assert!(registry.mint(owners[(n % 3) as usize], asset(n)).is_ok());
    }
    assert!(registry.transfer(alice(), bob(), asset(0)).is_ok());
    assert!(registry.transfer(bob(), carol(), asset(1)).is_ok());
    assert!(registry.transfer(carol(), alice(), asset(1)).is_ok());
    for n in 0..12u8 {
        let owner = registry.owner_of(&asset(n)).unwrap();
        for candidate in owners.iter() {
            let mut seen = 0;
            for p in 0..registry.owned_kitty_count(candidate) {
                if registry.kitty_of_owner_by_index(candidate, p) == Some(asset(n)) {
                    seen += 1;
                }
            }
            assert_eq!(seen, if *candidate == owner { 1 } else { 0 });
        }
    }
    assert_eq!(registry.owner_of(&asset(200)), None);
    assert_eq!(registry.kitty(&asset(200)), None);
    let total: u64 = owners.iter().map(|o| registry.owned_kitty_count(o)).sum();
    assert_eq!(total, registry.all_kitties_count());
}

#[test]
fn transfer_swaps_the_last_asset_into_the_gap() {
    let mut registry = Registry::new();
    for n in 0..4u8 {
        assert!(registry.mint(alice(), asset(n)).is_ok());
    }
    assert!(registry.mint(bob(), asset(10)).is_ok());

    assert_eq!(
        registry.transfer(alice(), bob(), asset(1)),
        Ok(Event::Transferred(alice(), bob(), asset(1)))
    );

    assert_eq!(registry.owned_kitty_count(&alice()), 3);
    assert_eq!(registry.kitty_of_owner_by_index(&alice(), 0), Some(asset(0)));
    assert_eq!(registry.kitty_of_owner_by_index(&alice(), 1), Some(asset(3)));
    assert_eq!(registry.kitty_of_owner_by_index(&alice(), 2), Some(asset(2)));
    assert_eq!(registry.kitty_of_owner_by_index(&alice(), 3), None);
    assert_eq!(registry.owned_kitty_count(&bob()), 2);
    assert_eq!(registry.kitty_of_owner_by_index(&bob(), 0), Some(asset(10)));
    assert_eq!(registry.kitty_of_owner_by_index(&bob(), 1), Some(asset(1)));
    assert_eq!(registry.owner_of(&asset(1)), Some(bob()));

    assert_eq!(registry.all_kitties_count(), 5);
    for n in 0..4u8 {
        assert_eq!(registry.kitty_by_index(n as u64), Some(asset(n)));
    }
    assert_eq!(registry.kitty_by_index(4), Some(asset(10)));
}

#[test]
fn transfer_of_the_last_position_moves_nothing_else() {
    let mut registry = Registry::new();
    for n in 0..3u8 {
        assert!(registry.mint(alice(), asset(n)).is_ok());
    }
    assert!(registry.transfer(alice(), bob(), asset(2)).is_ok());
    assert_eq!(registry.owned_kitty_count(&alice()), 2);
    assert_eq!(registry.kitty_of_owner_by_index(&alice(), 0), Some(asset(0)));
    assert_eq!(registry.kitty_of_owner_by_index(&alice(), 1), Some(asset(1)));
    assert_eq!(registry.kitty_of_owner_by_index(&bob(), 0), Some(asset(2)));
}

#[test]
fn transfer_to_oneself_keeps_the_count() {
    let mut registry = Registry::new();
    for n in 0..3u8 {
        assert!(registry.mint(alice(), asset(n)).is_ok());
    }
    assert_eq!(
        registry.transfer(alice(), alice(), asset(0)),
        Ok(Event::Transferred(alice(), alice(), asset(0)))
    );
    assert_eq!(registry.owned_kitty_count(&alice()), 3);
    assert_eq!(registry.owner_of(&asset(0)), Some(alice()));
    assert_eq!(registry.kitty_of_owner_by_index(&alice(), 0), Some(asset(2)));
    assert_eq!(registry.kitty_of_owner_by_index(&alice(), 1), Some(asset(1)));
    assert_eq!(registry.kitty_of_owner_by_index(&alice(), 2), Some(asset(0)));
}

#[test]
fn transfer_round_trip_restores_owner_and_counts() {
    let mut registry = Registry::new();
    for n in 0..3u8 {
        assert!(registry.mint(alice(), asset(n)).is_ok());
    }
    assert!(registry.mint(bob(), asset(7)).is_ok());

    assert!(registry.transfer(alice(), bob(), asset(0)).is_ok());
    assert_eq!(registry.owned_kitty_count(&alice()), 2);
    assert_eq!(registry.owned_kitty_count(&bob()), 2);
    assert!(registry.transfer(bob(), alice(), asset(0)).is_ok());

    assert_eq!(registry.owner_of(&asset(0)), Some(alice()));
    assert_eq!(registry.owned_kitty_count(&alice()), 3);
    assert_eq!(registry.owned_kitty_count(&bob()), 1);
    assert_eq!(registry.kitty_of_owner_by_index(&alice(), 0), Some(asset(2)));
    assert_eq!(registry.kitty_of_owner_by_index(&alice(), 1), Some(asset(1)));
    assert_eq!(registry.kitty_of_owner_by_index(&alice(), 2), Some(asset(0)));
    assert_eq!(registry.kitty_of_owner_by_index(&bob(), 0), Some(asset(7)));
}

#[test]
fn transfer_of_unknown_asset_has_no_owner() {
    let mut registry = Registry::new();
    assert!(registry.mint(alice(), asset(1)).is_ok());
    assert_eq!(registry.transfer(alice(), bob(), asset(2)), Err(Error::NoOwner));
    assert_eq!(registry.transfer_from(alice(), bob(), asset(2)), Err(Error::NoOwner));
    assert_eq!(registry.owned_kitty_count(&alice()), 1);
    assert_eq!(registry.owned_kitty_count(&bob()), 0);
}

#[test]
fn transfer_by_non_owner_is_refused() {
    let mut registry = Registry::new();
    assert!(registry.mint(alice(), asset(1)).is_ok());
    assert_eq!(registry.transfer(bob(), carol(), asset(1)), Err(Error::NotOwner));
    assert_eq!(registry.transfer_from(bob(), bob(), asset(1)), Err(Error::NotOwner));
    assert_eq!(registry.owner_of(&asset(1)), Some(alice()));
    assert_eq!(registry.owned_kitty_count(&alice()), 1);
    assert_eq!(registry.owned_kitty_count(&bob()), 0);
    assert_eq!(registry.owned_kitty_count(&carol()), 0);
}

#[test]
fn transfer_keeps_the_price() {
    let mut registry = Registry::new();
    assert!(registry.mint(alice(), asset(1)).is_ok());
    assert!(registry.set_price(alice(), asset(1), 77).is_ok());
    assert_eq!(registry.transfer_from(alice(), bob(), asset(1)), Ok(()));
    assert_eq!(registry.kitty(&asset(1)).unwrap().price, 77);
    assert_eq!(registry.owner_of(&asset(1)), Some(bob()));
}

#[test]
fn buy_of_unknown_asset_is_refused() {
    let mut registry = Registry::new();
    assert_eq!(registry.payment_due(bob(), asset(1), 10), Err(Error::AssetDoesNotExist));
    assert_eq!(registry.buy_kitty(bob(), asset(1), 10, Ok(())), Err(Error::AssetDoesNotExist));
    assert_eq!(
        registry.buy_kitty(bob(), asset(1), 10, Err(PaymentError { code: 3 })),
        Err(Error::AssetDoesNotExist)
    );
}

#[test]
fn buy_of_unlisted_asset_is_refused() {
    let mut registry = Registry::new();
    assert!(registry.mint(alice(), asset(1)).is_ok());
    assert_eq!(registry.payment_due(bob(), asset(1), 10), Err(Error::NotForSale));
    assert_eq!(registry.buy_kitty(bob(), asset(1), 10, Ok(())), Err(Error::NotForSale));
    assert_eq!(registry.owner_of(&asset(1)), Some(alice()));
}

#[test]
fn buy_above_max_price_is_refused() {
    let mut registry = Registry::new();
    assert!(registry.mint(alice(), asset(1)).is_ok());
    assert!(registry.set_price(alice(), asset(1), 101).is_ok());
    assert_eq!(registry.payment_due(bob(), asset(1), 100), Err(Error::PriceExceedsMax));
    assert_eq!(registry.buy_kitty(bob(), asset(1), 100, Ok(())), Err(Error::PriceExceedsMax));
    assert_eq!(registry.owner_of(&asset(1)), Some(alice()));
    assert_eq!(registry.kitty(&asset(1)).unwrap().price, 101);
}

#[test]
fn payment_due_names_buyer_seller_and_price() {
    let mut registry = Registry::new();
    assert!(registry.mint(alice(), asset(1)).is_ok());
    assert!(registry.set_price(alice(), asset(1), 30).is_ok());
    assert_eq!(
        registry.payment_due(bob(), asset(1), 31),
        Ok(Payment { from: bob(), to: alice(), amount: 30 })
    );
    assert_eq!(
        registry.payment_due(bob(), asset(1), 30),
        Ok(Payment { from: bob(), to: alice(), amount: 30 })
    );
    assert_eq!(registry.owner_of(&asset(1)), Some(alice()));
}

#[test]
fn failed_payment_changes_nothing() {
    let mut registry = Registry::new();
    let mut ledger = Ledger::with(&[(alice(), 0), (bob(), 99)]);
    assert!(registry.mint(alice(), asset(1)).is_ok());
    assert!(registry.mint(alice(), asset(2)).is_ok());
    assert!(registry.set_price(alice(), asset(1), 100).is_ok());

    assert_eq!(
        buy(&mut registry, &mut ledger, bob(), asset(1), 100),
        Err(Error::PaymentFailed(PaymentError { code: 1 }))
    );

    assert_eq!(registry.owner_of(&asset(1)), Some(alice()));
    assert_eq!(registry.kitty(&asset(1)).unwrap().price, 100);
    assert_eq!(registry.owned_kitty_count(&alice()), 2);
    assert_eq!(registry.owned_kitty_count(&bob()), 0);
    assert_eq!(registry.kitty_of_owner_by_index(&alice(), 0), Some(asset(1)));
    assert_eq!(registry.kitty_of_owner_by_index(&alice(), 1), Some(asset(2)));
    assert_eq!(ledger.balance(&bob()), 99);
    assert_eq!(ledger.balance(&alice()), 0);
}

#[test]
fn bought_asset_leaves_the_sellers_index_by_swap() {
    let mut registry = Registry::new();
    let mut ledger = Ledger::with(&[(bob(), 50)]);
    for n in 0..3u8 {
        assert!(registry.mint(alice(), asset(n)).is_ok());
    }
    assert!(registry.set_price(alice(), asset(0), 50).is_ok());
    assert_eq!(
        buy(&mut registry, &mut ledger, bob(), asset(0), 60),
        Ok(Event::Bought(bob(), alice(), asset(0), 50))
    );
    assert_eq!(registry.kitty_of_owner_by_index(&alice(), 0), Some(asset(2)));
    assert_eq!(registry.kitty_of_owner_by_index(&alice(), 1), Some(asset(1)));
    assert_eq!(registry.kitty_of_owner_by_index(&alice(), 2), None);
    assert_eq!(registry.kitty_of_owner_by_index(&bob(), 0), Some(asset(0)));
    assert_eq!(registry.kitty(&asset(0)).unwrap().price, 0);
    assert_eq!(ledger.balance(&bob()), 0);
    assert_eq!(ledger.balance(&alice()), 50);
    assert_eq!(buy(&mut registry, &mut ledger, alice(), asset(0), 60), Err(Error::NotForSale));
}

#[test]
fn new_registry_is_empty() {
    let registry = Registry::new();
    assert_eq!(registry.all_kitties_count(), 0);
    assert_eq!(registry.nonce(), 0);
    assert_eq!(registry.kitty_by_index(0), None);
    assert_eq!(registry.owned_kitty_count(&alice()), 0);
    assert_eq!(registry.kitty_of_owner_by_index(&alice(), 0), None);
    assert_eq!(registry.owner_of(&asset(0)), None);
    assert_eq!(registry.kitty(&asset(0)), None);
}
