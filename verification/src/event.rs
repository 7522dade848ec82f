//! The events that committed commands publish.
use crate::ids::{AnimalId, PlantId};
use crate::idmap::key_view;
use crate::input::{InputSettlement, InputSettlementView};
use crate::production::{ProductionSettlement, ProductionSettlementView};
use crate::purchase::{PurchaseQuote, PurchaseQuoteView};
use crate::sale::{SaleQuote, SaleQuoteView};
use vstd::prelude::*;

verus! {

/// The sole authoritative source of committed domain events.
///
/// Command outcomes are retained as convenient local receipts. Downstream
/// layers persist or publish these events from `Transition::events`
/// instead of reconstructing them by diffing state or interpreting outcomes.
#[derive(Clone, Debug, PartialEq, Eq)]
pub enum DomainEvent {
    ProductionSettled(ProductionSettlement),
    PurchaseBatchCommitted(PurchaseQuote),
    FeedingAttempted(InputSettlement),
    AnimalsSoldBatch(SaleQuote),
    CollectionDiscovered { plants: Vec<PlantId>, animals: Vec<AnimalId> },
}

pub enum DomainEventView {
    ProductionSettled(ProductionSettlementView),
    PurchaseBatchCommitted(PurchaseQuoteView),
    FeedingAttempted(InputSettlementView),
    AnimalsSoldBatch(SaleQuoteView),
    CollectionDiscovered { plants: Seq<Seq<char>>, animals: Seq<Seq<char>> },
}

impl View for DomainEvent {
    type V = DomainEventView;

    open spec fn view(&self) -> DomainEventView {
        match self {
            DomainEvent::ProductionSettled(x) => DomainEventView::ProductionSettled(x@),
            DomainEvent::PurchaseBatchCommitted(x) => DomainEventView::PurchaseBatchCommitted(x@),
            DomainEvent::FeedingAttempted(x) => DomainEventView::FeedingAttempted(x@),
            DomainEvent::AnimalsSoldBatch(x) => DomainEventView::AnimalsSoldBatch(x@),
            DomainEvent::CollectionDiscovered { plants, animals } => {
                DomainEventView::CollectionDiscovered {
                    plants: key_view(plants@),
                    animals: key_view(animals@),
                }
            },
        }
    }
}

} // verus!
