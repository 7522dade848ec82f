//! Errors of catalog construction, state validation and commands.
use vstd::prelude::*;

verus! {

#[derive(Clone, Debug, PartialEq, Eq)]
pub enum ConfigError {
    EmptyContentVersion,
    EmptySpeciesId,
    InvalidSpeciesId(String),
    EmptyCatalog,
    DuplicatePlantId(String),
    DuplicateAnimalId(String),
    DuplicateLandSlot(u8),
    InvalidLandSlot(u8),
    InvalidPlantParameter(String),
    InvalidAnimalParameter(String),
    UnknownPairedAnimal { plant_id: String, animal_id: String },
    UnknownFoodPlant { animal_id: String, plant_id: String },
    NonReciprocalPair { plant_id: String, animal_id: String },
    UnknownEmergencyAnimal(String),
    InvalidEmergencyThreshold,
}

/// `ConfigError` with its strings taken by their characters.
pub enum ConfigErrorView {
    EmptyContentVersion,
    EmptySpeciesId,
    InvalidSpeciesId(Seq<char>),
    EmptyCatalog,
    DuplicatePlantId(Seq<char>),
    DuplicateAnimalId(Seq<char>),
    DuplicateLandSlot(u8),
    InvalidLandSlot(u8),
    InvalidPlantParameter(Seq<char>),
    InvalidAnimalParameter(Seq<char>),
    UnknownPairedAnimal { plant_id: Seq<char>, animal_id: Seq<char> },
    UnknownFoodPlant { animal_id: Seq<char>, plant_id: Seq<char> },
    NonReciprocalPair { plant_id: Seq<char>, animal_id: Seq<char> },
    UnknownEmergencyAnimal(Seq<char>),
    InvalidEmergencyThreshold,
}

impl View for ConfigError {
    type V = ConfigErrorView;

    open spec fn view(&self) -> ConfigErrorView {
        match self {
            ConfigError::EmptyContentVersion => ConfigErrorView::EmptyContentVersion,
            ConfigError::EmptySpeciesId => ConfigErrorView::EmptySpeciesId,
            ConfigError::InvalidSpeciesId(s) => ConfigErrorView::InvalidSpeciesId(s@),
            ConfigError::EmptyCatalog => ConfigErrorView::EmptyCatalog,
            ConfigError::DuplicatePlantId(s) => ConfigErrorView::DuplicatePlantId(s@),
            ConfigError::DuplicateAnimalId(s) => ConfigErrorView::DuplicateAnimalId(s@),
            ConfigError::DuplicateLandSlot(x) => ConfigErrorView::DuplicateLandSlot(*x),
            ConfigError::InvalidLandSlot(x) => ConfigErrorView::InvalidLandSlot(*x),
            ConfigError::InvalidPlantParameter(s) => ConfigErrorView::InvalidPlantParameter(s@),
            ConfigError::InvalidAnimalParameter(s) => ConfigErrorView::InvalidAnimalParameter(s@),
            ConfigError::UnknownPairedAnimal { plant_id, animal_id } => {
                ConfigErrorView::UnknownPairedAnimal { plant_id: plant_id@, animal_id: animal_id@ }
            },
            ConfigError::UnknownFoodPlant { animal_id, plant_id } => {
                ConfigErrorView::UnknownFoodPlant { animal_id: animal_id@, plant_id: plant_id@ }
            },
            ConfigError::NonReciprocalPair { plant_id, animal_id } => {
                ConfigErrorView::NonReciprocalPair { plant_id: plant_id@, animal_id: animal_id@ }
            },
            ConfigError::UnknownEmergencyAnimal(s) => ConfigErrorView::UnknownEmergencyAnimal(s@),
            ConfigError::InvalidEmergencyThreshold => ConfigErrorView::InvalidEmergencyThreshold,
        }
    }
}

#[derive(Clone, Debug, PartialEq, Eq)]
pub enum StateError {
    ContentVersionMismatch { state: String, catalog: String },
    SpeciesSetMismatch,
    UnknownPlant(String),
    UnknownAnimal(String),
    DuplicateInitialGrant(String),
    InvalidProductionRemainder,
    EmptyPlantHasProductionRemainder(String),
    EmptyPlantHasStock(String),
    InvalidFeedingProgress { animal_id: String, threshold: u8 },
    EmptyAnimalHasProgress(String),
    UnknownCollectionSpecies,
    OwnedSpeciesUndiscovered(String),
}

/// `StateError` with its strings taken by their characters.
pub enum StateErrorView {
    ContentVersionMismatch { state: Seq<char>, catalog: Seq<char> },
    SpeciesSetMismatch,
    UnknownPlant(Seq<char>),
    UnknownAnimal(Seq<char>),
    DuplicateInitialGrant(Seq<char>),
    InvalidProductionRemainder,
    EmptyPlantHasProductionRemainder(Seq<char>),
    EmptyPlantHasStock(Seq<char>),
    InvalidFeedingProgress { animal_id: Seq<char>, threshold: u8 },
    EmptyAnimalHasProgress(Seq<char>),
    UnknownCollectionSpecies,
    OwnedSpeciesUndiscovered(Seq<char>),
}

impl View for StateError {
    type V = StateErrorView;

    open spec fn view(&self) -> StateErrorView {
        match self {
            StateError::ContentVersionMismatch { state, catalog } => {
                StateErrorView::ContentVersionMismatch { state: state@, catalog: catalog@ }
            },
            StateError::SpeciesSetMismatch => StateErrorView::SpeciesSetMismatch,
            StateError::UnknownPlant(s) => StateErrorView::UnknownPlant(s@),
            StateError::UnknownAnimal(s) => StateErrorView::UnknownAnimal(s@),
            StateError::DuplicateInitialGrant(s) => StateErrorView::DuplicateInitialGrant(s@),
            StateError::InvalidProductionRemainder => StateErrorView::InvalidProductionRemainder,
            StateError::EmptyPlantHasProductionRemainder(s) => {
                StateErrorView::EmptyPlantHasProductionRemainder(s@)
            },
            StateError::EmptyPlantHasStock(s) => StateErrorView::EmptyPlantHasStock(s@),
            StateError::InvalidFeedingProgress { animal_id, threshold } => {
                StateErrorView::InvalidFeedingProgress { animal_id: animal_id@, threshold: *threshold }
            },
            StateError::EmptyAnimalHasProgress(s) => StateErrorView::EmptyAnimalHasProgress(s@),
            StateError::UnknownCollectionSpecies => StateErrorView::UnknownCollectionSpecies,
            StateError::OwnedSpeciesUndiscovered(s) => StateErrorView::OwnedSpeciesUndiscovered(s@),
        }
    }
}

#[derive(Clone, Debug, PartialEq, Eq)]
pub enum DomainError {
    InvalidState(StateError),
    EmptySelection,
    DuplicateSelection(String),
    UnknownPlant(String),
    UnknownAnimal(String),
    InsufficientCoins,
    SaleQuantityExceedsOwned(String),
    InvalidEmergencyQuantity,
    PlantPricingTotalUnitsBudgetExceeded { requested: String, limit: u64 },
    PlantPricingSequenceBudgetExceeded { plant_id: String, requested: String, limit: u64 },
    PlantPricingDigitsBudgetExceeded { plant_id: String, estimated: u64, limit: u64 },
    PlantPricingWorkBudgetExceeded { estimated: u64, limit: u64 },
    InvalidPlantSequenceNumber,
}

/// `DomainError` with its strings taken by their characters.
pub enum DomainErrorView {
    InvalidState(StateErrorView),
    EmptySelection,
    DuplicateSelection(Seq<char>),
    UnknownPlant(Seq<char>),
    UnknownAnimal(Seq<char>),
    InsufficientCoins,
    SaleQuantityExceedsOwned(Seq<char>),
    InvalidEmergencyQuantity,
    PlantPricingTotalUnitsBudgetExceeded { requested: Seq<char>, limit: u64 },
    PlantPricingSequenceBudgetExceeded { plant_id: Seq<char>, requested: Seq<char>, limit: u64 },
    PlantPricingDigitsBudgetExceeded { plant_id: Seq<char>, estimated: u64, limit: u64 },
    PlantPricingWorkBudgetExceeded { estimated: u64, limit: u64 },
    InvalidPlantSequenceNumber,
}

impl View for DomainError {
    type V = DomainErrorView;

    open spec fn view(&self) -> DomainErrorView {
        match self {
            DomainError::InvalidState(e) => DomainErrorView::InvalidState(e@),
            DomainError::EmptySelection => DomainErrorView::EmptySelection,
            DomainError::DuplicateSelection(s) => DomainErrorView::DuplicateSelection(s@),
            DomainError::UnknownPlant(s) => DomainErrorView::UnknownPlant(s@),
            DomainError::UnknownAnimal(s) => DomainErrorView::UnknownAnimal(s@),
            DomainError::InsufficientCoins => DomainErrorView::InsufficientCoins,
            DomainError::SaleQuantityExceedsOwned(s) => DomainErrorView::SaleQuantityExceedsOwned(s@),
            DomainError::InvalidEmergencyQuantity => DomainErrorView::InvalidEmergencyQuantity,
            DomainError::PlantPricingTotalUnitsBudgetExceeded { requested, limit } => {
                DomainErrorView::PlantPricingTotalUnitsBudgetExceeded {
                    requested: requested@,
                    limit: *limit,
                }
            },
            DomainError::PlantPricingSequenceBudgetExceeded { plant_id, requested, limit } => {
                DomainErrorView::PlantPricingSequenceBudgetExceeded {
                    plant_id: plant_id@,
                    requested: requested@,
                    limit: *limit,
                }
            },
            DomainError::PlantPricingDigitsBudgetExceeded { plant_id, estimated, limit } => {
                DomainErrorView::PlantPricingDigitsBudgetExceeded {
                    plant_id: plant_id@,
                    estimated: *estimated,
                    limit: *limit,
                }
            },
            DomainError::PlantPricingWorkBudgetExceeded { estimated, limit } => {
                DomainErrorView::PlantPricingWorkBudgetExceeded {
                    estimated: *estimated,
                    limit: *limit,
                }
            },
            DomainError::InvalidPlantSequenceNumber => DomainErrorView::InvalidPlantSequenceNumber,
        }
    }
}

/// The first `Some` among `f(from)`, `f(from + 1)`, ..., `f(n - 1)`.
pub open spec fn first_some<E>(f: spec_fn(int) -> Option<E>, from: int, n: int) -> Option<E>
    decreases n - from,
{
    if from >= n {
        None
    } else if f(from) is Some {
        f(from)
    } else {
        first_some(f, from + 1, n)
    }
}

/// Skipping a position that yields `None`.
pub proof fn lemma_first_some_step<E>(f: spec_fn(int) -> Option<E>, i: int, n: int)
    requires
        i < n,
        f(i) is None,
    ensures
        first_some(f, i, n) == first_some(f, i + 1, n),
{
}

/// Every position from `from` on yields `None`.
pub proof fn lemma_first_some_none<E>(f: spec_fn(int) -> Option<E>, from: int, n: int)
    requires
        forall|j: int| from <= j < n ==> (#[trigger] f(j)) is None,
    ensures
        first_some(f, from, n) is None,
    decreases n - from,
{
    if from < n {
        lemma_first_some_none(f, from + 1, n);
    }
}

/// When `first_some` is `None`, every position yields `None`.
pub proof fn lemma_first_some_none_all<E>(f: spec_fn(int) -> Option<E>, from: int, n: int)
    requires
        first_some(f, from, n) is None,
    ensures
        forall|j: int| from <= j < n ==> (#[trigger] f(j)) is None,
    decreases n - from,
{
    if from < n {
        lemma_first_some_none_all(f, from + 1, n);
    }
}

/// `first_some` is `None` exactly when every position yields `None`.
pub proof fn lemma_first_some_none_iff<E>(f: spec_fn(int) -> Option<E>, from: int, n: int)
    ensures
        first_some(f, from, n) is None <==> forall|j: int| from <= j < n ==> (#[trigger] f(j)) is None,
    decreases n - from,
{
    if from < n {
        lemma_first_some_none_iff(f, from + 1, n);
    }
}

/// Two position checks that agree on a range find the same first failure there.
pub proof fn lemma_first_some_agree<E>(
    f: spec_fn(int) -> Option<E>,
    g: spec_fn(int) -> Option<E>,
    from: int,
    n: int,
)
    requires
        forall|j: int| from <= j < n ==> #[trigger] f(j) == g(j),
    ensures
        first_some(f, from, n) == first_some(g, from, n),
    decreases n - from,
{
    if from < n {
        assert(f(from) == g(from));
        lemma_first_some_agree(f, g, from + 1, n);
    }
}

} // verus!
