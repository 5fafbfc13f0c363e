//! The checks that a configuration is built from.
//!
//! Each check has a spec function that says which message is due, if any; the executable
//! check fails with exactly that message.

use vstd::prelude::*;
use vstd::string::*;
use crate::config::{
    AppAvailabilitySpec, AppEventMediaSpec, AppPrivacyDataTypeSpec, AppPrivacySpec,
    BundleIdPlatform, CapabilitySpec, CertificateKind, CommerceAvailabilitySpec,
    CommerceLocalizationSource, CommercePricingSpec, CommerceReviewAssetSpec,
    CustomProductPageLocalizationSource, DeviceSpec, PricePointSpec, PriceScheduleEntrySpec,
    ProfileKind, StringSource, TerritorySelectionMode, TerritorySelectionSpec,
};
use crate::ordered::OrderedMap;
use crate::text::{Error, as_deref, ascii_alnum, blank, cat, cat3, debug_form, debug_text, decimal, decimal_text, due_if, earlier, fails_as, failure, first_message, given, is_ascii_alnum, is_blank, owned, same, to_chars};

verus! {

/// What a profile signs with must be of the kind that it needs.
pub open spec fn certificate_kind_message(
    profile_name: Seq<char>,
    profile_kind: ProfileKind,
    cert_name: Seq<char>,
    cert_kind: CertificateKind,
) -> Option<Seq<char>> {
    let required = profile_kind.certificate_kind_of();
    due_if(
        cert_kind != required,
        "profile "@ + profile_name + " requires "@ + required.label_of() + " certificates, but "@
            + cert_name + " is "@ + cert_kind.label_of(),
    )
}

/// Checks the kind of a certificate that a profile signs with.
pub fn validate_profile_certificate_kind(
    profile_name: &str,
    profile_kind: ProfileKind,
    cert_name: &str,
    cert_kind: CertificateKind,
) -> (result: Result<(), Error>)
    ensures
        fails_as(
            result,
            certificate_kind_message(profile_name@, profile_kind, cert_name@, cert_kind),
        ),
{
    let required = profile_kind.required_certificate_kind();
    if cert_kind != required {
        return Err(
            failure(
                cat3("profile ", profile_name, " requires ").concat(required.label()).concat(
                    " certificates, but ",
                ).concat(cert_name).concat(" is ").concat(cert_kind.label()),
            ),
        );
    }
    Ok(())
}

/// What a bundle identifier may use, it names once.
pub open spec fn capability_message(
    bundle_id_name: Seq<char>,
    capabilities: Seq<CapabilitySpec>,
    i: int,
) -> Option<Seq<char>> {
    due_if(
        exists|j: int|
            0 <= j < i && (#[trigger] capabilities[j]).type_of() == capabilities[i].type_of(),
        "bundle_id "@ + bundle_id_name + " defines capability "@ + capabilities[i].type_of()
            + " more than once"@,
    )
}

/// The message of each capability.
pub open spec fn capability_checks(
    bundle_id_name: Seq<char>,
    capabilities: Seq<CapabilitySpec>,
) -> spec_fn(int) -> Option<Seq<char>> {
    |i: int| capability_message(bundle_id_name, capabilities, i)
}

/// No capability may be named twice.
pub open spec fn capabilities_message(
    bundle_id_name: Seq<char>,
    capabilities: Seq<CapabilitySpec>,
) -> Option<Seq<char>> {
    first_message(
        capability_checks(bundle_id_name, capabilities),
        0,
        capabilities.len() as int,
    )
}

fn named_before(capabilities: &Vec<CapabilitySpec>, i: usize) -> (result: bool)
    requires
        i < capabilities.len(),
    ensures
        result == (exists|j: int|
            0 <= j < i && (#[trigger] capabilities@[j]).type_of()
                == capabilities@[i as int].type_of()),
{
    let capability_type = capabilities[i].capability_type();
    let mut j: usize = 0;
    while j < i
        invariant
            j <= i < capabilities.len(),
            capability_type@ == capabilities@[i as int].type_of(),
            forall|k: int|
                0 <= k < j ==> (#[trigger] capabilities@[k]).type_of()
                    != capabilities@[i as int].type_of(),
        decreases i - j,
    {
        if same(capabilities[j].capability_type(), capability_type) {
            return true;
        }
        j += 1;
    }
    false
}

/// Checks that no capability is named twice.
pub fn validate_capabilities(
    bundle_id_name: &str,
    capabilities: &Vec<CapabilitySpec>,
) -> (result: Result<(), Error>)
    ensures
        fails_as(result, capabilities_message(bundle_id_name@, capabilities@)),
{
    let mut i: usize = 0;
    while i < capabilities.len()
        invariant
            i <= capabilities.len(),
            first_message(
                capability_checks(bundle_id_name@, capabilities@),
                0,
                capabilities@.len() as int,
            ) == first_message(
                capability_checks(bundle_id_name@, capabilities@),
                i as int,
                capabilities@.len() as int,
            ),
        decreases capabilities.len() - i,
    {
        if named_before(capabilities, i) {
            return Err(
                failure(
                    cat3("bundle_id ", bundle_id_name, " defines capability ").concat(
                        capabilities[i].capability_type(),
                    ).concat(" more than once"),
                ),
            );
        }
        i += 1;
    }
    Ok(())
}

/// The characters of a name key.
pub open spec fn key_char(c: char) -> bool {
    is_ascii_alnum(c) || c == '.' || c == '-' || c == '_'
}

/// A name key is made of key characters and is no special directory.
pub open spec fn logical_key_message(kind: Seq<char>, key: Seq<char>) -> Option<Seq<char>> {
    if blank(key) {
        Some(kind + " name key cannot be empty"@)
    } else if key == "."@ || key == ".."@ {
        Some(kind + " name key "@ + debug_form(key) + " is reserved"@)
    } else if exists|i: int| 0 <= i < key.len() && !key_char(#[trigger] key[i]) {
        Some(
            kind + " name key "@ + debug_form(key)
                + " must contain only ASCII letters, digits, '.', '-', or '_'"@,
        )
    } else {
        None
    }
}

fn made_of_key_chars(key: &str) -> (result: bool)
    ensures
        result == (forall|i: int| 0 <= i < key@.len() ==> key_char(#[trigger] key@[i])),
{
    let chars = to_chars(key);
    let mut i: usize = 0;
    while i < chars.len()
        invariant
            i <= chars.len(),
            chars@ == key@,
            forall|k: int| 0 <= k < i ==> key_char(#[trigger] key@[k]),
        decreases chars.len() - i,
    {
        let c = chars[i];
        if !(ascii_alnum(c) || c == '.' || c == '-' || c == '_') {
            return false;
        }
        i += 1;
    }
    true
}

/// Checks a name key.
pub fn validate_logical_key(kind: &str, key: &str) -> (result: Result<(), Error>)
    ensures
        fails_as(result, logical_key_message(kind@, key@)),
{
    if is_blank(key) {
        return Err(failure(cat(kind, " name key cannot be empty")));
    }
    if same(key, ".") || same(key, "..") {
        return Err(
            failure(cat3(kind, " name key ", debug_text(key).as_str()).concat(" is reserved")),
        );
    }
    if !made_of_key_chars(key) {
        return Err(
            failure(
                cat3(kind, " name key ", debug_text(key).as_str()).concat(
                    " must contain only ASCII letters, digits, '.', '-', or '_'",
                ),
            ),
        );
    }
    Ok(())
}

/// A locale must be given.
pub open spec fn locale_message(context: Seq<char>, locale: Seq<char>) -> Option<Seq<char>> {
    due_if(blank(locale), context + " locale cannot be empty"@)
}

/// Checks a locale.
pub fn validate_locale(context: &str, locale: &str) -> (result: Result<(), Error>)
    ensures
        fails_as(result, locale_message(context@, locale@)),
{
    if is_blank(locale) {
        return Err(failure(cat(context, " locale cannot be empty")));
    }
    Ok(())
}

/// What is given must not be blank.
pub open spec fn optional_message(context: Seq<char>, value: Option<Seq<char>>) -> Option<
    Seq<char>,
> {
    due_if(value matches Some(text) && blank(text), context + " cannot be empty"@)
}

/// Checks an id that may be missing.
pub fn validate_optional_id(context: &str, value: Option<&str>) -> (result: Result<(), Error>)
    ensures
        fails_as(result, optional_message(context@, given(value))),
{
    validate_optional_nonempty(context, value)
}

/// Checks a text that may be missing.
pub fn validate_optional_nonempty(context: &str, value: Option<&str>) -> (result: Result<
    (),
    Error,
>)
    ensures
        fails_as(result, optional_message(context@, given(value))),
{
    match value {
        Some(text) => {
            if is_blank(text) {
                return Err(failure(cat(context, " cannot be empty")));
            }
            Ok(())
        },
        None => Ok(()),
    }
}

/// A text must not be blank, nor the name of its variable.
pub open spec fn source_message(context: Seq<char>, source: StringSource) -> Option<Seq<char>> {
    match source {
        StringSource::Literal(value) => due_if(blank(value@), context + " cannot be empty"@),
        StringSource::Env { env } => due_if(blank(env@), context + " $env cannot be empty"@),
    }
}

/// Checks a text.
pub fn validate_string_source(context: &str, source: &StringSource) -> (result: Result<(), Error>)
    ensures
        fails_as(result, source_message(context@, *source)),
{
    match source {
        StringSource::Literal(value) => {
            if is_blank(value.as_str()) {
                return Err(failure(cat(context, " cannot be empty")));
            }
        },
        StringSource::Env { env } => {
            if is_blank(env.as_str()) {
                return Err(failure(cat(context, " $env cannot be empty")));
            }
        },
    }
    Ok(())
}

/// A text that may be missing may be blank, but not the name of its variable.
pub open spec fn optional_source_message(
    context: Seq<char>,
    source: Option<StringSource>,
) -> Option<Seq<char>> {
    match source {
        Some(StringSource::Env { env }) => due_if(blank(env@), context + " $env cannot be empty"@),
        _ => None,
    }
}

/// Checks a text that may be missing.
pub fn validate_optional_string_source(
    context: &str,
    source: &Option<StringSource>,
) -> (result: Result<(), Error>)
    ensures
        fails_as(result, optional_source_message(context@, *source)),
{
    match source {
        Some(StringSource::Env { env }) => {
            if is_blank(env.as_str()) {
                return Err(failure(cat(context, " $env cannot be empty")));
            }
            Ok(())
        },
        _ => Ok(()),
    }
}

/// A path must not be empty.
pub open spec fn path_message(context: Seq<char>, path: Seq<char>) -> Option<Seq<char>> {
    due_if(path.len() == 0, context + " path cannot be empty"@)
}

/// Checks a path.
pub fn validate_path(context: &str, path: &str) -> (result: Result<(), Error>)
    ensures
        fails_as(result, path_message(context@, path@)),
{
    if path.is_empty() {
        return Err(failure(cat(context, " path cannot be empty")));
    }
    Ok(())
}

/// A path that is given must not be empty.
pub open spec fn optional_path_message(context: Seq<char>, path: Option<Seq<char>>) -> Option<
    Seq<char>,
> {
    match path {
        Some(text) => path_message(context, text),
        None => None,
    }
}

/// Checks a path that may be missing.
pub fn validate_optional_path(context: &str, path: Option<&str>) -> (result: Result<(), Error>)
    ensures
        fails_as(result, optional_path_message(context@, given(path))),
{
    match path {
        Some(text) => validate_path(context, text),
        None => Ok(()),
    }
}

/// Three ASCII capitals.
pub open spec fn territory_id(territory: Seq<char>) -> bool {
    territory.len() == 3 && forall|i: int| 0 <= i < 3 ==> 'A' <= #[trigger] territory[i] <= 'Z'
}

/// A territory is named by three capitals.
pub open spec fn territory_message(context: Seq<char>, territory: Seq<char>) -> Option<Seq<char>> {
    if blank(territory) {
        Some(context + " territory cannot be empty"@)
    } else if !territory_id(territory) {
        Some(
            context + " territory "@ + debug_form(territory)
                + " must be a three-letter uppercase App Store territory id like USA"@,
        )
    } else {
        None
    }
}

fn is_territory_id(territory: &str) -> (result: bool)
    ensures
        result == territory_id(territory@),
{
    let chars = to_chars(territory);
    if chars.len() != 3 {
        return false;
    }
    let a = chars[0];
    let b = chars[1];
    let c = chars[2];
    'A' <= a && a <= 'Z' && 'A' <= b && b <= 'Z' && 'A' <= c && c <= 'Z'
}

/// Checks the name of a territory.
pub fn validate_territory_id(context: &str, territory: &str) -> (result: Result<(), Error>)
    ensures
        fails_as(result, territory_message(context@, territory@)),
{
    if is_blank(territory) {
        return Err(failure(cat(context, " territory cannot be empty")));
    }
    if !is_territory_id(territory) {
        return Err(
            failure(
                cat3(context, " territory ", debug_text(territory).as_str()).concat(
                    " must be a three-letter uppercase App Store territory id like USA",
                ),
            ),
        );
    }
    Ok(())
}

/// The message of each territory.
pub open spec fn territory_checks(context: Seq<char>, values: Seq<String>) -> spec_fn(
    int,
) -> Option<Seq<char>> {
    |i: int| territory_message(context, values[i]@)
}

/// The first message among territories.
pub open spec fn territories_message(context: Seq<char>, values: Seq<String>) -> Option<
    Seq<char>,
> {
    first_message(territory_checks(context, values), 0, values.len() as int)
}

/// Checks the names of territories.
pub fn validate_territories(context: &str, values: &Vec<String>) -> (result: Result<(), Error>)
    ensures
        fails_as(result, territories_message(context@, values@)),
{
    let mut i: usize = 0;
    while i < values.len()
        invariant
            i <= values.len(),
            territories_message(context@, values@) == first_message(
                territory_checks(context@, values@),
                i as int,
                values@.len() as int,
            ),
        decreases values.len() - i,
    {
        if let Err(error) = validate_territory_id(context, values[i].as_str()) {
            return Err(error);
        }
        i += 1;
    }
    Ok(())
}

/// Territories are listed exactly when not all are meant.
pub open spec fn selection_message(
    context: Seq<char>,
    selection: TerritorySelectionSpec,
) -> Option<Seq<char>> {
    let all = selection.mode == TerritorySelectionMode::All;
    if all && selection.values@.len() > 0 {
        Some(context + ".values must be empty when mode is all"@)
    } else if !all && selection.values@.len() == 0 {
        Some(context + ".values cannot be empty when mode is not all"@)
    } else {
        territories_message(context, selection.values@)
    }
}

/// Checks a choice of territories.
pub fn validate_territory_selection(
    context: &str,
    selection: &TerritorySelectionSpec,
) -> (result: Result<(), Error>)
    ensures
        fails_as(result, selection_message(context@, *selection)),
{
    match selection.mode {
        TerritorySelectionMode::All => {
            if selection.values.len() > 0 {
                return Err(failure(cat(context, ".values must be empty when mode is all")));
            }
        },
        TerritorySelectionMode::Only | TerritorySelectionMode::Include => {
            if selection.values.len() == 0 {
                return Err(
                    failure(cat(context, ".values cannot be empty when mode is not all")),
                );
            }
        },
    }
    validate_territories(context, &selection.values)
}

/// What a pre-order must give.
pub open spec fn availability_message(
    app_name: Seq<char>,
    availability: AppAvailabilitySpec,
) -> Option<Seq<char>> {
    let base = "app "@ + app_name + ".availability"@;
    earlier(
        match availability.territories {
            Some(selection) => selection_message(base + ".territories"@, selection),
            None => None,
        },
        match availability.pre_order {
            Some(order) => earlier(
                due_if(
                    order.enabled && !(order.release_date matches Some(date) && !blank(date@)),
                    base
                        + ".pre_order.release_date is required when pre_order is enabled"@,
                ),
                earlier(
                    optional_message(base + ".pre_order.release_date"@, owned(order.release_date)),
                    earlier(
                        optional_message(
                            base + ".pre_order.publish_date"@,
                            owned(order.publish_date),
                        ),
                        territories_message(base + ".pre_order"@, order.territories@),
                    ),
                ),
            ),
            None => None,
        },
    )
}

/// Checks where an app is sold.
pub fn validate_app_availability(
    app_name: &str,
    availability: &AppAvailabilitySpec,
) -> (result: Result<(), Error>)
    ensures
        fails_as(result, availability_message(app_name@, *availability)),
{
    let base = cat3("app ", app_name, ".availability");
    if let Some(selection) = &availability.territories {
        if let Err(error) = validate_territory_selection(
            cat(base.as_str(), ".territories").as_str(),
            selection,
        ) {
            return Err(error);
        }
    }
    if let Some(order) = &availability.pre_order {
        if order.enabled {
            let dated = match &order.release_date {
                Some(date) => !is_blank(date.as_str()),
                None => false,
            };
            if !dated {
                return Err(
                    failure(
                        cat(
                            base.as_str(),
                            ".pre_order.release_date is required when pre_order is enabled",
                        ),
                    ),
                );
            }
        }
        if let Err(error) = validate_optional_nonempty(
            cat(base.as_str(), ".pre_order.release_date").as_str(),
            as_deref(&order.release_date),
        ) {
            return Err(error);
        }
        if let Err(error) = validate_optional_nonempty(
            cat(base.as_str(), ".pre_order.publish_date").as_str(),
            as_deref(&order.publish_date),
        ) {
            return Err(error);
        }
        if let Err(error) = validate_territories(
            cat(base.as_str(), ".pre_order").as_str(),
            &order.territories,
        ) {
            return Err(error);
        }
    }
    Ok(())
}

/// A price is given by amount or by price point, not by both.
pub open spec fn price_choice_message(
    context: Seq<char>,
    price: Option<StringSource>,
    price_point_id: Option<Seq<char>>,
) -> Option<Seq<char>> {
    match (price, price_point_id) {
        (Some(source), None) => source_message(context + ".price"@, source),
        (None, Some(id)) => due_if(blank(id), context + ".price_point_id cannot be empty"@),
        (Some(_), Some(_)) => Some(context + " must not define both price and price_point_id"@),
        (None, None) => Some(context + " must define price or price_point_id"@),
    }
}

/// Checks how a price is given.
pub fn validate_price_point_choice(
    context: &str,
    price: &Option<StringSource>,
    price_point_id: Option<&str>,
) -> (result: Result<(), Error>)
    ensures
        fails_as(result, price_choice_message(context@, *price, given(price_point_id))),
{
    match (price, price_point_id) {
        (Some(source), None) => validate_string_source(cat(context, ".price").as_str(), source),
        (None, Some(id)) => {
            if is_blank(id) {
                return Err(failure(cat(context, ".price_point_id cannot be empty")));
            }
            Ok(())
        },
        (Some(_), Some(_)) => Err(
            failure(cat(context, " must not define both price and price_point_id")),
        ),
        (None, None) => Err(failure(cat(context, " must define price or price_point_id"))),
    }
}

/// The message of each territory price.
pub open spec fn territory_price_checks(
    context: Seq<char>,
    prices: Seq<(Seq<char>, PricePointSpec)>,
) -> spec_fn(int) -> Option<Seq<char>> {
    |i: int|
        earlier(
            territory_message(context, prices[i].0),
            price_choice_message(
                context + ".territory_prices."@ + prices[i].0,
                prices[i].1.price,
                owned(prices[i].1.price_point_id),
            ),
        )
}

fn validate_territory_prices(
    context: &str,
    prices: &OrderedMap<PricePointSpec>,
) -> (result: Result<(), Error>)
    ensures
        fails_as(
            result,
            first_message(
                territory_price_checks(context@, prices.entries()),
                0,
                prices.entries().len() as int,
            ),
        ),
{
    let n: usize = prices.len();
    let mut i: usize = 0;
    while i < n
        invariant
            i <= n == prices.entries().len(),
            first_message(territory_price_checks(context@, prices.entries()), 0, n as int)
                == first_message(
                territory_price_checks(context@, prices.entries()),
                i as int,
                n as int,
            ),
        decreases n - i,
    {
        let territory = prices.key_at(i).as_str();
        let price = prices.value_at(i);
        if let Err(error) = validate_territory_id(context, territory) {
            return Err(error);
        }
        if let Err(error) = validate_price_point_choice(
            cat3(context, ".territory_prices.", territory).as_str(),
            &price.price,
            as_deref(&price.price_point_id),
        ) {
            return Err(error);
        }
        i += 1;
    }
    Ok(())
}

/// What one span of a price schedule must give.
pub open spec fn schedule_entry_message(
    context: Seq<char>,
    entry: PriceScheduleEntrySpec,
) -> Option<Seq<char>> {
    earlier(
        optional_message(context + ".start_date"@, owned(entry.start_date)),
        earlier(
            optional_message(context + ".end_date"@, owned(entry.end_date)),
            earlier(
                price_choice_message(context, entry.price, owned(entry.price_point_id)),
                first_message(
                    territory_price_checks(context, entry.territory_prices.entries()),
                    0,
                    entry.territory_prices.entries().len() as int,
                ),
            ),
        ),
    )
}

fn validate_schedule_entry(context: &str, entry: &PriceScheduleEntrySpec) -> (result: Result<
    (),
    Error,
>)
    ensures
        fails_as(result, schedule_entry_message(context@, *entry)),
{
    if let Err(error) = validate_optional_nonempty(
        cat(context, ".start_date").as_str(),
        as_deref(&entry.start_date),
    ) {
        return Err(error);
    }
    if let Err(error) = validate_optional_nonempty(
        cat(context, ".end_date").as_str(),
        as_deref(&entry.end_date),
    ) {
        return Err(error);
    }
    if let Err(error) = validate_price_point_choice(
        context,
        &entry.price,
        as_deref(&entry.price_point_id),
    ) {
        return Err(error);
    }
    validate_territory_prices(context, &entry.territory_prices)
}

/// `context[i]`.
pub open spec fn at_index(context: Seq<char>, i: int) -> Seq<char> {
    context + "["@ + decimal(i as nat) + "]"@
}

/// `context[i]`.
pub fn indexed(context: &str, i: usize) -> (result: String)
    ensures
        result@ == at_index(context@, i as int),
{
    cat3(context, "[", decimal_text(i as u64).as_str()).concat("]")
}

/// The message of each span of a price schedule.
pub open spec fn schedule_checks(
    context: Seq<char>,
    schedule: Seq<PriceScheduleEntrySpec>,
) -> spec_fn(int) -> Option<Seq<char>> {
    |i: int| schedule_entry_message(at_index(context, i), schedule[i])
}

fn validate_schedule(context: &str, schedule: &Vec<PriceScheduleEntrySpec>) -> (result: Result<
    (),
    Error,
>)
    ensures
        fails_as(
            result,
            first_message(schedule_checks(context@, schedule@), 0, schedule@.len() as int),
        ),
{
    let mut i: usize = 0;
    while i < schedule.len()
        invariant
            i <= schedule.len(),
            first_message(schedule_checks(context@, schedule@), 0, schedule@.len() as int)
                == first_message(
                schedule_checks(context@, schedule@),
                i as int,
                schedule@.len() as int,
            ),
        decreases schedule.len() - i,
    {
        if let Err(error) = validate_schedule_entry(indexed(context, i).as_str(), &schedule[i]) {
            return Err(error);
        }
        i += 1;
    }
    Ok(())
}

/// What a price schedule must give.
pub open spec fn pricing_message(
    context: Seq<char>,
    pricing: CommercePricingSpec,
) -> Option<Seq<char>> {
    earlier(
        territory_message(context + ".base_territory"@, pricing.base_territory@),
        earlier(
            due_if(pricing.schedule@.len() == 0, context + ".schedule cannot be empty"@),
            first_message(
                schedule_checks(context + ".schedule"@, pricing.schedule@),
                0,
                pricing.schedule@.len() as int,
            ),
        ),
    )
}

/// Checks a price schedule.
pub fn validate_pricing(context: &str, pricing: &CommercePricingSpec) -> (result: Result<
    (),
    Error,
>)
    ensures
        fails_as(result, pricing_message(context@, *pricing)),
{
    if let Err(error) = validate_territory_id(
        cat(context, ".base_territory").as_str(),
        pricing.base_territory.as_str(),
    ) {
        return Err(error);
    }
    if pricing.schedule.len() == 0 {
        return Err(failure(cat(context, ".schedule cannot be empty")));
    }
    validate_schedule(cat(context, ".schedule").as_str(), &pricing.schedule)
}

/// The message of each blank text in a list.
pub open spec fn blank_checks(message: Seq<char>, values: Seq<String>) -> spec_fn(int) -> Option<
    Seq<char>,
> {
    |i: int| due_if(blank(values[i]@), message)
}

/// None of the texts may be blank.
pub open spec fn blanks_message(message: Seq<char>, values: Seq<String>) -> Option<Seq<char>> {
    first_message(blank_checks(message, values), 0, values.len() as int)
}

fn validate_no_blanks(message: &str, values: &Vec<String>) -> (result: Result<(), Error>)
    ensures
        fails_as(result, blanks_message(message@, values@)),
{
    let mut i: usize = 0;
    while i < values.len()
        invariant
            i <= values.len(),
            blanks_message(message@, values@) == first_message(
                blank_checks(message@, values@),
                i as int,
                values@.len() as int,
            ),
        decreases values.len() - i,
    {
        if is_blank(values[i].as_str()) {
            return Err(failure(message.to_owned()));
        }
        i += 1;
    }
    Ok(())
}

/// What a page localization must give.
pub open spec fn page_localization_message(
    context: Seq<char>,
    source: CustomProductPageLocalizationSource,
) -> Option<Seq<char>> {
    match source {
        CustomProductPageLocalizationSource::Path(path) => path_message(context, path@),
        CustomProductPageLocalizationSource::Inline(spec) => earlier(
            optional_source_message(context + ".promotional_text"@, spec.promotional_text),
            blanks_message(
                context + ".search_keyword_ids cannot contain an empty id"@,
                spec.search_keyword_ids@,
            ),
        ),
    }
}

/// Checks a page localization, whose place in the configuration is `context`.
pub fn validate_custom_product_page_localization(
    context: &str,
    source: &CustomProductPageLocalizationSource,
) -> (result: Result<(), Error>)
    ensures
        fails_as(result, page_localization_message(context@, *source)),
{
    match source {
        CustomProductPageLocalizationSource::Path(path) => validate_path(context, path.as_str()),
        CustomProductPageLocalizationSource::Inline(spec) => {
            if let Err(error) = validate_optional_string_source(
                cat(context, ".promotional_text").as_str(),
                &spec.promotional_text,
            ) {
                return Err(error);
            }
            validate_no_blanks(
                cat(context, ".search_keyword_ids cannot contain an empty id").as_str(),
                &spec.search_keyword_ids,
            )
        },
    }
}

/// What a purchase localization must give.
pub open spec fn commerce_localization_message(
    context: Seq<char>,
    source: CommerceLocalizationSource,
) -> Option<Seq<char>> {
    match source {
        CommerceLocalizationSource::Path(path) => path_message(context, path@),
        CommerceLocalizationSource::Inline(spec) => earlier(
            source_message(context + ".name"@, spec.name),
            optional_source_message(context + ".description"@, spec.description),
        ),
    }
}

fn validate_commerce_localization(context: &str, source: &CommerceLocalizationSource) -> (result:
    Result<(), Error>)
    ensures
        fails_as(result, commerce_localization_message(context@, *source)),
{
    match source {
        CommerceLocalizationSource::Path(path) => validate_path(context, path.as_str()),
        CommerceLocalizationSource::Inline(spec) => {
            if let Err(error) = validate_string_source(
                cat(context, ".name").as_str(),
                &spec.name,
            ) {
                return Err(error);
            }
            validate_optional_string_source(
                cat(context, ".description").as_str(),
                &spec.description,
            )
        },
    }
}

/// The message of each localization of a purchase.
pub open spec fn commerce_localization_checks(
    context: Seq<char>,
    entries: Seq<(Seq<char>, CommerceLocalizationSource)>,
) -> spec_fn(int) -> Option<Seq<char>> {
    |i: int|
        earlier(
            locale_message(context, entries[i].0),
            commerce_localization_message(context + "."@ + entries[i].0, entries[i].1),
        )
}

fn validate_commerce_localizations(
    context: &str,
    localizations: &OrderedMap<CommerceLocalizationSource>,
) -> (result: Result<(), Error>)
    ensures
        fails_as(
            result,
            first_message(
                commerce_localization_checks(context@, localizations.entries()),
                0,
                localizations.entries().len() as int,
            ),
        ),
{
    let n: usize = localizations.len();
    let mut i: usize = 0;
    while i < n
        invariant
            i <= n == localizations.entries().len(),
            first_message(
                commerce_localization_checks(context@, localizations.entries()),
                0,
                n as int,
            ) == first_message(
                commerce_localization_checks(context@, localizations.entries()),
                i as int,
                n as int,
            ),
        decreases n - i,
    {
        let locale = localizations.key_at(i).as_str();
        if let Err(error) = validate_locale(context, locale) {
            return Err(error);
        }
        if let Err(error) = validate_commerce_localization(
            cat3(context, ".", locale).as_str(),
            localizations.value_at(i),
        ) {
            return Err(error);
        }
        i += 1;
    }
    Ok(())
}

/// What the localizations, price, availability and review of a purchase must give.
pub open spec fn commerce_children_message(
    context: Seq<char>,
    localizations: Seq<(Seq<char>, CommerceLocalizationSource)>,
    pricing: Option<CommercePricingSpec>,
    availability: Option<CommerceAvailabilitySpec>,
    review: Option<CommerceReviewAssetSpec>,
) -> Option<Seq<char>> {
    earlier(
        first_message(
            commerce_localization_checks(context + ".localizations"@, localizations),
            0,
            localizations.len() as int,
        ),
        earlier(
            match pricing {
                Some(schedule) => pricing_message(context + ".pricing"@, schedule),
                None => None,
            },
            earlier(
                match availability {
                    Some(place) => selection_message(
                        context + ".availability.territories"@,
                        place.territories,
                    ),
                    None => None,
                },
                match review {
                    Some(asset) => optional_path_message(
                        context + ".review.screenshot"@,
                        owned(asset.screenshot),
                    ),
                    None => None,
                },
            ),
        ),
    )
}

/// Checks the localizations, price, availability and review of a purchase.
pub fn validate_commerce_children(
    context: &str,
    localizations: &OrderedMap<CommerceLocalizationSource>,
    pricing: &Option<CommercePricingSpec>,
    availability: &Option<CommerceAvailabilitySpec>,
    review: &Option<CommerceReviewAssetSpec>,
) -> (result: Result<(), Error>)
    ensures
        fails_as(
            result,
            commerce_children_message(
                context@,
                localizations.entries(),
                *pricing,
                *availability,
                *review,
            ),
        ),
{
    if let Err(error) = validate_commerce_localizations(
        cat(context, ".localizations").as_str(),
        localizations,
    ) {
        return Err(error);
    }
    if let Some(schedule) = pricing {
        if let Err(error) = validate_pricing(cat(context, ".pricing").as_str(), schedule) {
            return Err(error);
        }
    }
    if let Some(place) = availability {
        if let Err(error) = validate_territory_selection(
            cat(context, ".availability.territories").as_str(),
            &place.territories,
        ) {
            return Err(error);
        }
    }
    if let Some(asset) = review {
        if let Err(error) = validate_optional_path(
            cat(context, ".review.screenshot").as_str(),
            as_deref(&asset.screenshot),
        ) {
            return Err(error);
        }
    }
    Ok(())
}

/// The paths of event media must not be empty.
pub open spec fn event_media_message(
    context: Seq<char>,
    media: AppEventMediaSpec,
) -> Option<Seq<char>> {
    earlier(
        optional_path_message(context + ".card_image"@, owned(media.card_image)),
        earlier(
            optional_path_message(context + ".details_image"@, owned(media.details_image)),
            earlier(
                optional_path_message(context + ".card_video"@, owned(media.card_video)),
                optional_path_message(context + ".details_video"@, owned(media.details_video)),
            ),
        ),
    )
}

/// Checks the paths of event media.
pub fn validate_app_event_media_paths(
    context: &str,
    media: &AppEventMediaSpec,
) -> (result: Result<(), Error>)
    ensures
        fails_as(result, event_media_message(context@, *media)),
{
    if let Err(error) = validate_optional_path(
        cat(context, ".card_image").as_str(),
        as_deref(&media.card_image),
    ) {
        return Err(error);
    }
    if let Err(error) = validate_optional_path(
        cat(context, ".details_image").as_str(),
        as_deref(&media.details_image),
    ) {
        return Err(error);
    }
    if let Err(error) = validate_optional_path(
        cat(context, ".card_video").as_str(),
        as_deref(&media.card_video),
    ) {
        return Err(error);
    }
    validate_optional_path(cat(context, ".details_video").as_str(), as_deref(&media.details_video))
}

/// What one collected kind of data must give.
pub open spec fn data_type_message(
    context: Seq<char>,
    data_type: AppPrivacyDataTypeSpec,
) -> Option<Seq<char>> {
    earlier(
        due_if(blank(data_type.kind@), context + ".type cannot be empty"@),
        earlier(
            due_if(data_type.purposes@.len() == 0, context + ".purposes cannot be empty"@),
            blanks_message(
                context + ".purposes cannot contain an empty purpose"@,
                data_type.purposes@,
            ),
        ),
    )
}

fn validate_data_type(context: &str, data_type: &AppPrivacyDataTypeSpec) -> (result: Result<
    (),
    Error,
>)
    ensures
        fails_as(result, data_type_message(context@, *data_type)),
{
    if is_blank(data_type.kind.as_str()) {
        return Err(failure(cat(context, ".type cannot be empty")));
    }
    if data_type.purposes.len() == 0 {
        return Err(failure(cat(context, ".purposes cannot be empty")));
    }
    validate_no_blanks(
        cat(context, ".purposes cannot contain an empty purpose").as_str(),
        &data_type.purposes,
    )
}

/// The message of each collected kind of data.
pub open spec fn data_type_checks(
    context: Seq<char>,
    data_types: Seq<AppPrivacyDataTypeSpec>,
) -> spec_fn(int) -> Option<Seq<char>> {
    |i: int| data_type_message(at_index(context, i), data_types[i])
}

fn validate_data_types(context: &str, data_types: &Vec<AppPrivacyDataTypeSpec>) -> (result: Result<
    (),
    Error,
>)
    ensures
        fails_as(
            result,
            first_message(data_type_checks(context@, data_types@), 0, data_types@.len() as int),
        ),
{
    let mut i: usize = 0;
    while i < data_types.len()
        invariant
            i <= data_types.len(),
            first_message(data_type_checks(context@, data_types@), 0, data_types@.len() as int)
                == first_message(
                data_type_checks(context@, data_types@),
                i as int,
                data_types@.len() as int,
            ),
        decreases data_types.len() - i,
    {
        if let Err(error) = validate_data_type(indexed(context, i).as_str(), &data_types[i]) {
            return Err(error);
        }
        i += 1;
    }
    Ok(())
}

/// What the privacy answers must give.
pub open spec fn privacy_message(
    app_name: Seq<char>,
    privacy: AppPrivacySpec,
) -> Option<Seq<char>> {
    let base = "app "@ + app_name + ".privacy"@;
    earlier(
        first_message(
            data_type_checks(base + ".data_types"@, privacy.data_types@),
            0,
            privacy.data_types@.len() as int,
        ),
        blanks_message(
            base + ".tracking_domains cannot contain an empty domain"@,
            privacy.tracking_domains@,
        ),
    )
}

/// Checks the privacy answers.
pub fn validate_privacy(app_name: &str, privacy: &AppPrivacySpec) -> (result: Result<(), Error>)
    ensures
        fails_as(result, privacy_message(app_name@, *privacy)),
{
    let base = cat3("app ", app_name, ".privacy");
    if let Err(error) = validate_data_types(
        cat(base.as_str(), ".data_types").as_str(),
        &privacy.data_types,
    ) {
        return Err(error);
    }
    validate_no_blanks(
        cat(base.as_str(), ".tracking_domains cannot contain an empty domain").as_str(),
        &privacy.tracking_domains,
    )
}

/// A listed device must be one that the profile can list.
pub open spec fn device_platform_message(
    profile_name: Seq<char>,
    profile_kind: ProfileKind,
    device: DeviceSpec,
) -> Option<Seq<char>> {
    match profile_kind.device_platform_of() {
        Some(expected) => due_if(
            device.family.platform_of() != expected || !profile_kind.fits_family(device.family),
            "profile "@ + profile_name + " of type "@ + profile_kind.label_of()
                + " requires compatible "@ + expected.label_of() + " devices, but one device is "@
                + device.family.label_of(),
        ),
        None => None,
    }
}

/// Checks a device that a profile lists.
pub fn validate_profile_device_platform(
    profile_name: &str,
    profile_kind: ProfileKind,
    device: &DeviceSpec,
) -> (result: Result<(), Error>)
    ensures
        fails_as(result, device_platform_message(profile_name@, profile_kind, *device)),
{
    if let Some(expected) = profile_kind.expected_device_platform() {
        if device.family.asc_platform() != expected || !profile_kind.supports_device_family(
            device.family,
        ) {
            return Err(
                failure(
                    cat3("profile ", profile_name, " of type ").concat(
                        profile_kind.label(),
                    ).concat(" requires compatible ").concat(expected.label()).concat(
                        " devices, but one device is ",
                    ).concat(device.family.label()),
                ),
            );
        }
    }
    Ok(())
}

/// A profile must fit the platform of its bundle identifier.
pub open spec fn bundle_platform_message(
    profile_name: Seq<char>,
    profile_kind: ProfileKind,
    platform: BundleIdPlatform,
) -> Option<Seq<char>> {
    due_if(
        !profile_kind.fits_platform(platform),
        "profile "@ + profile_name + " of type "@ + profile_kind.label_of()
            + " is incompatible with bundle_id platform "@ + platform.label_of(),
    )
}

/// Checks the platform of the bundle identifier of a profile.
pub fn validate_profile_bundle_id_platform(
    profile_name: &str,
    profile_kind: ProfileKind,
    bundle_id_platform: BundleIdPlatform,
) -> (result: Result<(), Error>)
    ensures
        fails_as(result, bundle_platform_message(profile_name@, profile_kind, bundle_id_platform)),
{
    if !profile_kind.supports_bundle_id_platform(bundle_id_platform) {
        return Err(
            failure(
                cat3("profile ", profile_name, " of type ").concat(profile_kind.label()).concat(
                    " is incompatible with bundle_id platform ",
                ).concat(bundle_id_platform.label()),
            ),
        );
    }
    Ok(())
}

} // verus!
