//! The text of each error, and the message a player sees for a failed command.
use crate::bignat::{decimal, BigNat};
use crate::error::{
    ConfigError, ConfigErrorView, DomainError, DomainErrorView, StateError, StateErrorView,
};
use vstd::prelude::*;
use vstd::string::StringExecFns;

verus! {

/// The text of a catalog error.
pub open spec fn config_error_text(e: ConfigErrorView) -> Seq<char> {
    match e {
        ConfigErrorView::EmptyContentVersion => "content version must not be empty"@,
        ConfigErrorView::EmptySpeciesId => "species id must not be empty"@,
        ConfigErrorView::InvalidSpeciesId(s) => "species id contains unsupported characters: "@ + s,
        ConfigErrorView::EmptyCatalog => "content must contain at least one plant and one animal"@,
        ConfigErrorView::DuplicatePlantId(s) => "duplicate plant id: "@ + s,
        ConfigErrorView::DuplicateAnimalId(s) => "duplicate animal id: "@ + s,
        ConfigErrorView::DuplicateLandSlot(x) => "duplicate land slot "@ + decimal(x as nat),
        ConfigErrorView::InvalidLandSlot(x) => "land slot "@ + decimal(x as nat)
            + " is outside the five MVP land slots"@,
        ConfigErrorView::InvalidPlantParameter(s) => "plant "@ + s + " has an invalid zero-valued parameter"@,
        ConfigErrorView::InvalidAnimalParameter(s) => "animal "@ + s + " has an invalid parameter"@,
        ConfigErrorView::UnknownPairedAnimal { plant_id, animal_id } => "plant "@ + plant_id
            + " references unknown animal "@ + animal_id,
        ConfigErrorView::UnknownFoodPlant { animal_id, plant_id } => "animal "@ + animal_id
            + " references unknown plant "@ + plant_id,
        ConfigErrorView::NonReciprocalPair { plant_id, animal_id } => "plant/animal pairing is not reciprocal for "@
            + plant_id + " and "@ + animal_id,
        ConfigErrorView::UnknownEmergencyAnimal(s) => "emergency animal is not present: "@ + s,
        ConfigErrorView::InvalidEmergencyThreshold => "emergency threshold must equal the animal's normal fixed purchase price"@,
    }
}

/// The text of a state error.
pub open spec fn state_error_text(e: StateErrorView) -> Seq<char> {
    match e {
        StateErrorView::ContentVersionMismatch { state, catalog } => "state content version "@ + state
            + " does not match catalog "@ + catalog,
        StateErrorView::SpeciesSetMismatch => "state does not contain exactly the configured species"@,
        StateErrorView::UnknownPlant(s) => "unknown plant: "@ + s,
        StateErrorView::UnknownAnimal(s) => "unknown animal: "@ + s,
        StateErrorView::DuplicateInitialGrant(s) => "duplicate initial grant: "@ + s,
        StateErrorView::InvalidProductionRemainder => "plant production remainder must be in 0..=59"@,
        StateErrorView::EmptyPlantHasProductionRemainder(s) => "a plant with zero count cannot retain production remainder: "@
            + s,
        StateErrorView::EmptyPlantHasStock(s) => "a plant with zero count cannot retain stock: "@ + s,
        StateErrorView::InvalidFeedingProgress { animal_id, threshold } => "feeding progress for "@ + animal_id
            + " must be below threshold "@ + decimal(threshold as nat),
        StateErrorView::EmptyAnimalHasProgress(s) => "an empty animal group cannot retain growth or feeding progress: "@
            + s,
        StateErrorView::UnknownCollectionSpecies => "collection contains an unknown species"@,
        StateErrorView::OwnedSpeciesUndiscovered(s) => "an owned or historically purchased species must be discovered: "@
            + s,
    }
}

/// The text of a command error; a state error shows its own text.
pub open spec fn domain_error_text(e: DomainErrorView) -> Seq<char> {
    match e {
        DomainErrorView::InvalidState(s) => state_error_text(s),
        DomainErrorView::EmptySelection => "selection is empty"@,
        DomainErrorView::DuplicateSelection(s) => "duplicate selection: "@ + s,
        DomainErrorView::UnknownPlant(s) => "unknown plant: "@ + s,
        DomainErrorView::UnknownAnimal(s) => "unknown animal: "@ + s,
        DomainErrorView::InsufficientCoins => "insufficient coins"@,
        DomainErrorView::SaleQuantityExceedsOwned(s) => "sale quantity exceeds the owned animal count: "@ + s,
        DomainErrorView::InvalidEmergencyQuantity => "emergency rabbit quantity must be exactly one"@,
        DomainErrorView::PlantPricingTotalUnitsBudgetExceeded { requested, limit } => "purchase contains "@
            + requested + " plant units, above the command pricing budget "@ + decimal(limit as nat),
        DomainErrorView::PlantPricingSequenceBudgetExceeded { plant_id, requested, limit } => "plant "@
            + plant_id + " would reach sequence "@ + requested + ", above the pricing budget "@ + decimal(
            limit as nat,
        ),
        DomainErrorView::PlantPricingDigitsBudgetExceeded { plant_id, estimated, limit } => "plant "@
            + plant_id + " pricing needs about "@ + decimal(estimated as nat)
            + " intermediate decimal digits, above the budget "@ + decimal(limit as nat),
        DomainErrorView::PlantPricingWorkBudgetExceeded { estimated, limit } => "purchase needs about "@
            + decimal(estimated as nat) + " digit-work units, above the command budget "@ + decimal(
            limit as nat,
        ),
        DomainErrorView::InvalidPlantSequenceNumber => "plant sequence numbers are one-based"@,
    }
}

fn number_text(n: u64) -> (r: String)
    ensures
        r@ == decimal(n as nat),
{
    BigNat::from_u64(n).to_decimal_string()
}

fn join2(a: &str, b: &str) -> (r: String)
    ensures
        r@ == a@ + b@,
{
    let mut t = String::from_str(a);
    t.append(b);
    t
}

fn join3(a: &str, b: &str, c: &str) -> (r: String)
    ensures
        r@ == a@ + b@ + c@,
{
    let mut t = String::from_str(a);
    t.append(b);
    t.append(c);
    t
}

fn join4(a: &str, b: &str, c: &str, d: &str) -> (r: String)
    ensures
        r@ == a@ + b@ + c@ + d@,
{
    let mut t = String::from_str(a);
    t.append(b);
    t.append(c);
    t.append(d);
    t
}

fn join6(a: &str, b: &str, c: &str, d: &str, e: &str, f: &str) -> (r: String)
    ensures
        r@ == a@ + b@ + c@ + d@ + e@ + f@,
{
    let mut t = String::from_str(a);
    t.append(b);
    t.append(c);
    t.append(d);
    t.append(e);
    t.append(f);
    t
}

impl ConfigError {
    /// The error's text.
    pub fn message(&self) -> (r: String)
        ensures
            r@ == config_error_text(self@),
    {
        match self {
            ConfigError::EmptyContentVersion => String::from_str("content version must not be empty"),
            ConfigError::EmptySpeciesId => String::from_str("species id must not be empty"),
            ConfigError::InvalidSpeciesId(s) => join2("species id contains unsupported characters: ", s.as_str()),
            ConfigError::EmptyCatalog => String::from_str("content must contain at least one plant and one animal"),
            ConfigError::DuplicatePlantId(s) => join2("duplicate plant id: ", s.as_str()),
            ConfigError::DuplicateAnimalId(s) => join2("duplicate animal id: ", s.as_str()),
            ConfigError::DuplicateLandSlot(x) => join2("duplicate land slot ", number_text(*x as u64).as_str()),
            ConfigError::InvalidLandSlot(x) => join3(
                "land slot ",
                number_text(*x as u64).as_str(),
                " is outside the five MVP land slots",
            ),
            ConfigError::InvalidPlantParameter(s) => join3("plant ", s.as_str(), " has an invalid zero-valued parameter"),
            ConfigError::InvalidAnimalParameter(s) => join3("animal ", s.as_str(), " has an invalid parameter"),
            ConfigError::UnknownPairedAnimal { plant_id, animal_id } => join4(
                "plant ",
                plant_id.as_str(),
                " references unknown animal ",
                animal_id.as_str(),
            ),
            ConfigError::UnknownFoodPlant { animal_id, plant_id } => join4(
                "animal ",
                animal_id.as_str(),
                " references unknown plant ",
                plant_id.as_str(),
            ),
            ConfigError::NonReciprocalPair { plant_id, animal_id } => join4(
                "plant/animal pairing is not reciprocal for ",
                plant_id.as_str(),
                " and ",
                animal_id.as_str(),
            ),
            ConfigError::UnknownEmergencyAnimal(s) => join2("emergency animal is not present: ", s.as_str()),
            ConfigError::InvalidEmergencyThreshold => String::from_str(
                "emergency threshold must equal the animal's normal fixed purchase price",
            ),
        }
    }
}

impl StateError {
    /// The error's text.
    pub fn message(&self) -> (r: String)
        ensures
            r@ == state_error_text(self@),
    {
        match self {
            StateError::ContentVersionMismatch { state, catalog } => join4(
                "state content version ",
                state.as_str(),
                " does not match catalog ",
                catalog.as_str(),
            ),
            StateError::SpeciesSetMismatch => String::from_str("state does not contain exactly the configured species"),
            StateError::UnknownPlant(s) => join2("unknown plant: ", s.as_str()),
            StateError::UnknownAnimal(s) => join2("unknown animal: ", s.as_str()),
            StateError::DuplicateInitialGrant(s) => join2("duplicate initial grant: ", s.as_str()),
            StateError::InvalidProductionRemainder => String::from_str("plant production remainder must be in 0..=59"),
            StateError::EmptyPlantHasProductionRemainder(s) => join2(
                "a plant with zero count cannot retain production remainder: ",
                s.as_str(),
            ),
            StateError::EmptyPlantHasStock(s) => join2("a plant with zero count cannot retain stock: ", s.as_str()),
            StateError::InvalidFeedingProgress { animal_id, threshold } => join4(
                "feeding progress for ",
                animal_id.as_str(),
                " must be below threshold ",
                number_text(*threshold as u64).as_str(),
            ),
            StateError::EmptyAnimalHasProgress(s) => join2(
                "an empty animal group cannot retain growth or feeding progress: ",
                s.as_str(),
            ),
            StateError::UnknownCollectionSpecies => String::from_str("collection contains an unknown species"),
            StateError::OwnedSpeciesUndiscovered(s) => join2(
                "an owned or historically purchased species must be discovered: ",
                s.as_str(),
            ),
        }
    }
}

impl DomainError {
    /// The error's text.
    pub fn message(&self) -> (r: String)
        ensures
            r@ == domain_error_text(self@),
    {
        match self {
            DomainError::InvalidState(s) => s.message(),
            DomainError::EmptySelection => String::from_str("selection is empty"),
            DomainError::DuplicateSelection(s) => join2("duplicate selection: ", s.as_str()),
            DomainError::UnknownPlant(s) => join2("unknown plant: ", s.as_str()),
            DomainError::UnknownAnimal(s) => join2("unknown animal: ", s.as_str()),
            DomainError::InsufficientCoins => String::from_str("insufficient coins"),
            DomainError::SaleQuantityExceedsOwned(s) => join2(
                "sale quantity exceeds the owned animal count: ",
                s.as_str(),
            ),
            DomainError::InvalidEmergencyQuantity => String::from_str("emergency rabbit quantity must be exactly one"),
            DomainError::PlantPricingTotalUnitsBudgetExceeded { requested, limit } => join4(
                "purchase contains ",
                requested.as_str(),
                " plant units, above the command pricing budget ",
                number_text(*limit).as_str(),
            ),
            DomainError::PlantPricingSequenceBudgetExceeded { plant_id, requested, limit } => join6(
                "plant ",
                plant_id.as_str(),
                " would reach sequence ",
                requested.as_str(),
                ", above the pricing budget ",
                number_text(*limit).as_str(),
            ),
            DomainError::PlantPricingDigitsBudgetExceeded { plant_id, estimated, limit } => join6(
                "plant ",
                plant_id.as_str(),
                " pricing needs about ",
                number_text(*estimated).as_str(),
                " intermediate decimal digits, above the budget ",
                number_text(*limit).as_str(),
            ),
            DomainError::PlantPricingWorkBudgetExceeded { estimated, limit } => join4(
                "purchase needs about ",
                number_text(*estimated).as_str(),
                " digit-work units, above the command budget ",
                number_text(*limit).as_str(),
            ),
            DomainError::InvalidPlantSequenceNumber => String::from_str("plant sequence numbers are one-based"),
        }
    }
}

/// `needle` occurs in `hay` starting at position `i`.
pub open spec fn occurs_at(hay: Seq<char>, needle: Seq<char>, i: int) -> bool {
    0 <= i && i + needle.len() <= hay.len() && hay.subrange(i, i + needle.len()) == needle
}

/// `needle` occurs somewhere in `hay`.
pub open spec fn has_substring(hay: Seq<char>, needle: Seq<char>) -> bool {
    exists|i: int| #[trigger] occurs_at(hay, needle, i)
}

/// Whether `needle` occurs in `hay`.
pub fn contains_text(hay: &str, needle: &str) -> (r: bool)
    ensures
        r == has_substring(hay@, needle@),
{
    let n = hay.unicode_len();
    let m = needle.unicode_len();
    if m > n {
        assert forall|i: int| !occurs_at(hay@, needle@, i) by {}
        return false;
    }
    let mut i: usize = 0;
    while i <= n - m
        invariant
            n == hay@.len(),
            m == needle@.len(),
            m <= n,
            i <= n - m + 1,
            forall|k: int| 0 <= k < i ==> !occurs_at(hay@, needle@, k),
        decreases n - m + 1 - i,
    {
        let mut j: usize = 0;
        let mut same = true;
        while j < m
            invariant
                n == hay@.len(),
                m == needle@.len(),
                i + m <= n,
                j <= m,
                same == forall|t: int| 0 <= t < j ==> hay@[i + t] == needle@[t],
            decreases m - j,
        {
            if hay.get_char(i + j) != needle.get_char(j) {
                same = false;
            }
            j = j + 1;
        }
        if same {
            assert(hay@.subrange(i as int, i + m) =~= needle@);
            assert(occurs_at(hay@, needle@, i as int));
            return true;
        }
        assert(!occurs_at(hay@, needle@, i as int)) by {
            if occurs_at(hay@, needle@, i as int) {
                let t = choose|t: int| 0 <= t < m && hay@[i + t] != needle@[t];
                assert(hay@.subrange(i as int, i + m)[t] == needle@[t]);
            }
        }
        i = i + 1;
    }
    assert forall|k: int| !occurs_at(hay@, needle@, k) by {
        if 0 <= k && k + m <= n {
            assert(k < i);
        }
    }
    false
}

/// What a player reads for a failed command: three failures have a message of their
/// own, found by their text; any other shows its text after a prefix.
pub open spec fn player_message(text: Seq<char>) -> Seq<char> {
    if has_substring(text, "insufficient coins"@) {
        "金币不足"@
    } else if has_substring(text, "empty selection"@) {
        "请至少选择一项"@
    } else if has_substring(text, "exceeds owned"@) {
        "出售数量超过持有数量"@
    } else {
        "操作失败："@ + text
    }
}

/// The player's message for an error's text.
pub fn domain_error(text: &str) -> (r: String)
    ensures
        r@ == player_message(text@),
{
    if contains_text(text, "insufficient coins") {
        String::from_str("金币不足")
    } else if contains_text(text, "empty selection") {
        String::from_str("请至少选择一项")
    } else if contains_text(text, "exceeds owned") {
        String::from_str("出售数量超过持有数量")
    } else {
        join2("操作失败：", text)
    }
}

} // verus!
