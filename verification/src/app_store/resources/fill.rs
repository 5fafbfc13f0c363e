//! Filling in the texts of pages, purchases, subscriptions and events.

use vstd::prelude::*;
use vstd::string::*;
use crate::app_store::resolve::ResolveContext;
use crate::app_store::resources::{
    ResolvedAppEvent, ResolvedAppEventLocalization, ResolvedCommerceLocalization,
    ResolvedCommerceProduct, ResolvedCustomProductPage, ResolvedCustomProductPageLocalization,
    ResolvedSubscriptionGroupLocalization,
};
use crate::config::{
    AppEventLocalizationSource, AppEventLocalizationSpec, AppEventSpec,
    AppEventTerritoryScheduleSpec, CommerceLocalizationSource, CommerceLocalizationSpec,
    CustomProductPageLocalizationSource, CustomProductPageLocalizationSpec, CustomProductPageSpec,
    InAppPurchaseSpec, StringSource, SubscriptionGroupLocalizationSource,
    SubscriptionGroupLocalizationSpec, SubscriptionSpec,
};
use crate::json::{array, array_view, text, Json, JsonView, Members};
use crate::ordered::{
    ascending, entry_index, lemma_lookup, lemma_precedes_irreflexive, precedes, OrderedMap,
};
use crate::text::{earlier, first_message, owned, texts, Error};

verus! {

/// The keys of the first entries.
pub open spec fn keys_before<V>(entries: Seq<(Seq<char>, V)>, n: int) -> Set<Seq<char>> {
    Set::new(|key: Seq<char>| exists|i: int| 0 <= i < n && (#[trigger] entries[i]).0 == key)
}

proof fn lemma_keys_before<V>(entries: Seq<(Seq<char>, V)>, n: int)
    requires
        0 <= n < entries.len(),
    ensures
        keys_before(entries, n + 1) == keys_before(entries, n).insert(entries[n].0),
{
    let a = keys_before(entries, n + 1);
    let b = keys_before(entries, n).insert(entries[n].0);
    assert forall|key: Seq<char>| a.contains(key) == b.contains(key) by {
        if a.contains(key) {
            let i = choose|i: int| 0 <= i < n + 1 && (#[trigger] entries[i]).0 == key;
            if i < n {
                assert(entries[i].0 == key);
            }
        }
        if b.contains(key) {
            if key == entries[n].0 {
                assert(entries[n].0 == key);
            } else {
                let i = choose|i: int| 0 <= i < n && (#[trigger] entries[i]).0 == key;
                assert(entries[i].0 == key);
            }
        }
    }
    assert(a =~= b);
}

/// A copy of a list of strings.
pub fn copy_strings(items: &Vec<String>) -> (copies: Vec<String>)
    ensures
        texts(copies@) == texts(items@),
{
    let mut copies: Vec<String> = Vec::new();
    let mut i: usize = 0;
    while i < items.len()
        invariant
            i <= items.len(),
            copies.len() == i,
            forall|k: int| 0 <= k < i ==> (#[trigger] copies@[k])@ == items@[k]@,
        decreases items.len() - i,
    {
        copies.push(items[i].clone());
        i += 1;
    }
    proof {
        assert(texts(copies@) =~= texts(items@));
    }
    copies
}

impl ResolvedCommerceLocalization {
    /// The message that is due of a specification.
    pub open spec fn lacks(
        context: ResolveContext,
        spec: CommerceLocalizationSpec,
    ) -> Option<Seq<char>> {
        earlier(context.lacks(Some(spec.name)), context.lacks(spec.description))
    }

    /// The texts are those of a specification.
    pub open spec fn filled(self, context: ResolveContext, spec: CommerceLocalizationSpec) -> bool {
        &&& Some(self.name@) == context.optional_text(Some(spec.name))
        &&& owned(self.description) == context.optional_text(spec.description)
    }
}

impl ResolveContext {
    /// Fills in the localized texts of a purchase.
    pub fn resolve_commerce_localization(
        &self,
        spec: &CommerceLocalizationSpec,
    ) -> (result: Result<ResolvedCommerceLocalization, Error>)
        ensures
            match ResolvedCommerceLocalization::lacks(*self, *spec) {
                Some(message) => result matches Err(error) && error@ == message,
                None => result matches Ok(resolved) && resolved.filled(*self, *spec),
            },
    {
        let name = match self.resolve_string(&spec.name) {
            Ok(value) => value,
            Err(error) => {
                return Err(error);
            },
        };
        let description = match self.resolve_optional_string(&spec.description) {
            Ok(value) => value,
            Err(error) => {
                return Err(error);
            },
        };
        Ok(ResolvedCommerceLocalization { name, description })
    }
}

impl CommerceLocalizationSource {
    /// The specification: as it is written out, else as the file of the locale holds it.
    pub open spec fn read_as(
        self,
        locale: Seq<char>,
        loaded: Map<Seq<char>, CommerceLocalizationSpec>,
    ) -> CommerceLocalizationSpec {
        match self {
            CommerceLocalizationSource::Inline(spec) => spec,
            CommerceLocalizationSource::Path(_) => loaded[locale],
        }
    }
}

/// The message that is due at each locale.
pub open spec fn commerce_checks(
    context: ResolveContext,
    entries: Seq<(Seq<char>, CommerceLocalizationSource)>,
    loaded: Map<Seq<char>, CommerceLocalizationSpec>,
) -> spec_fn(int) -> Option<Seq<char>> {
    |i: int| ResolvedCommerceLocalization::lacks(context, entries[i].1.read_as(entries[i].0, loaded))
}

impl ResolveContext {
    /// Fills in the localized texts of a purchase, locale by locale. `loaded` holds, by locale, what
    /// stands in files of their own.
    pub fn resolve_commerce_localizations(
        &self,
        sources: &OrderedMap<CommerceLocalizationSource>,
        loaded: &OrderedMap<CommerceLocalizationSpec>,
    ) -> (result: Result<OrderedMap<ResolvedCommerceLocalization>, Error>)
        requires
            forall|i: int|
                0 <= i < sources.entries().len() && (#[trigger] sources.entries()[i]).1 is Path
                    ==> loaded@.contains_key(sources.entries()[i].0),
        ensures
            match first_message(
                commerce_checks(*self, sources.entries(), loaded@),
                0,
                sources.entries().len() as int,
            ) {
                Some(message) => result matches Err(error) && error@ == message,
                None => result matches Ok(resolved) && resolved@.dom() == sources@.dom() && (forall|
                    locale: Seq<char>,
                | #[trigger]
                    sources@.dom().contains(locale) ==> resolved@[locale].filled(
                        *self,
                        sources@[locale].read_as(locale, loaded@),
                    )),
            },
    {
        let n: usize = sources.len();
        let ghost entries = sources.entries();
        let mut resolved: OrderedMap<ResolvedCommerceLocalization> = OrderedMap::new();
        let mut i: usize = 0;
        proof {
            assert(resolved@.dom() =~= keys_before(entries, 0));
        }
        while i < n
            invariant
                i <= n == entries.len(),
                entries == sources.entries(),
                ascending(entries),
                forall|k: int|
                    0 <= k < entries.len() && (#[trigger] entries[k]).1 is Path
                        ==> loaded@.contains_key(entries[k].0),
                first_message(commerce_checks(*self, entries, loaded@), 0, n as int) == first_message(
                    commerce_checks(*self, entries, loaded@),
                    i as int,
                    n as int,
                ),
                resolved@.dom() == keys_before(entries, i as int),
                forall|k: int|
                    0 <= k < i ==> resolved@[(#[trigger] entries[k]).0].filled(
                        *self,
                        entries[k].1.read_as(entries[k].0, loaded@),
                    ),
            decreases n - i,
        {
            let locale = sources.key_at(i);
            let spec: &CommerceLocalizationSpec = match sources.value_at(i) {
                CommerceLocalizationSource::Inline(spec) => spec,
                CommerceLocalizationSource::Path(_) => loaded.get(locale.as_str()).unwrap(),
            };
            match self.resolve_commerce_localization(spec) {
                Ok(value) => {
                    resolved.insert(locale.clone(), value);
                    proof {
                        lemma_keys_before(entries, i as int);
                        assert(resolved@.dom() =~= keys_before(entries, i + 1));
                        assert forall|k: int| 0 <= k < i + 1 implies resolved@[(
                        #[trigger] entries[k]).0].filled(
                            *self,
                            entries[k].1.read_as(entries[k].0, loaded@),
                        ) by {
                            if k < i {
                                assert(precedes(entries[k].0, entries[i as int].0));
                                lemma_precedes_irreflexive(entries[k].0);
                            }
                        }
                    }
                },
                Err(error) => {
                    return Err(error);
                },
            }
            i += 1;
        }
        proof {
            assert(resolved@.dom() =~= sources@.dom());
            assert forall|locale: Seq<char>| #[trigger]
                sources@.dom().contains(locale) implies resolved@[locale].filled(
                *self,
                sources@[locale].read_as(locale, loaded@),
            ) by {
                lemma_lookup(entries, locale);
                let k = entry_index(entries, locale);
                assert(0 <= k < entries.len() && entries[k].0 == locale);
            }
        }
        Ok(resolved)
    }
}

impl ResolvedSubscriptionGroupLocalization {
    /// The message that is due of a specification.
    pub open spec fn lacks(
        context: ResolveContext,
        spec: SubscriptionGroupLocalizationSpec,
    ) -> Option<Seq<char>> {
        earlier(context.lacks(Some(spec.name)), context.lacks(spec.custom_app_name))
    }

    /// The texts are those of a specification.
    pub open spec fn filled(
        self,
        context: ResolveContext,
        spec: SubscriptionGroupLocalizationSpec,
    ) -> bool {
        &&& Some(self.name@) == context.optional_text(Some(spec.name))
        &&& owned(self.custom_app_name) == context.optional_text(spec.custom_app_name)
    }
}

impl ResolveContext {
    /// Fills in the localized texts of a subscription group.
    pub fn resolve_subscription_group_localization(
        &self,
        spec: &SubscriptionGroupLocalizationSpec,
    ) -> (result: Result<ResolvedSubscriptionGroupLocalization, Error>)
        ensures
            match ResolvedSubscriptionGroupLocalization::lacks(*self, *spec) {
                Some(message) => result matches Err(error) && error@ == message,
                None => result matches Ok(resolved) && resolved.filled(*self, *spec),
            },
    {
        let name = match self.resolve_string(&spec.name) {
            Ok(value) => value,
            Err(error) => {
                return Err(error);
            },
        };
        let custom_app_name = match self.resolve_optional_string(&spec.custom_app_name) {
            Ok(value) => value,
            Err(error) => {
                return Err(error);
            },
        };
        Ok(ResolvedSubscriptionGroupLocalization { name, custom_app_name })
    }
}

impl SubscriptionGroupLocalizationSource {
    /// The specification: as it is written out, else as the file of the locale holds it.
    pub open spec fn read_as(
        self,
        locale: Seq<char>,
        loaded: Map<Seq<char>, SubscriptionGroupLocalizationSpec>,
    ) -> SubscriptionGroupLocalizationSpec {
        match self {
            SubscriptionGroupLocalizationSource::Inline(spec) => spec,
            SubscriptionGroupLocalizationSource::Path(_) => loaded[locale],
        }
    }
}

/// The message that is due at each locale.
pub open spec fn group_checks(
    context: ResolveContext,
    entries: Seq<(Seq<char>, SubscriptionGroupLocalizationSource)>,
    loaded: Map<Seq<char>, SubscriptionGroupLocalizationSpec>,
) -> spec_fn(int) -> Option<Seq<char>> {
    |i: int| ResolvedSubscriptionGroupLocalization::lacks(context, entries[i].1.read_as(entries[i].0, loaded))
}

impl ResolveContext {
    /// Fills in the localized texts of a subscription group, locale by locale. `loaded` holds, by locale, what
    /// stands in files of their own.
    pub fn resolve_subscription_group_localizations(
        &self,
        sources: &OrderedMap<SubscriptionGroupLocalizationSource>,
        loaded: &OrderedMap<SubscriptionGroupLocalizationSpec>,
    ) -> (result: Result<OrderedMap<ResolvedSubscriptionGroupLocalization>, Error>)
        requires
            forall|i: int|
                0 <= i < sources.entries().len() && (#[trigger] sources.entries()[i]).1 is Path
                    ==> loaded@.contains_key(sources.entries()[i].0),
        ensures
            match first_message(
                group_checks(*self, sources.entries(), loaded@),
                0,
                sources.entries().len() as int,
            ) {
                Some(message) => result matches Err(error) && error@ == message,
                None => result matches Ok(resolved) && resolved@.dom() == sources@.dom() && (forall|
                    locale: Seq<char>,
                | #[trigger]
                    sources@.dom().contains(locale) ==> resolved@[locale].filled(
                        *self,
                        sources@[locale].read_as(locale, loaded@),
                    )),
            },
    {
        let n: usize = sources.len();
        let ghost entries = sources.entries();
        let mut resolved: OrderedMap<ResolvedSubscriptionGroupLocalization> = OrderedMap::new();
        let mut i: usize = 0;
        proof {
            assert(resolved@.dom() =~= keys_before(entries, 0));
        }
        while i < n
            invariant
                i <= n == entries.len(),
                entries == sources.entries(),
                ascending(entries),
                forall|k: int|
                    0 <= k < entries.len() && (#[trigger] entries[k]).1 is Path
                        ==> loaded@.contains_key(entries[k].0),
                first_message(group_checks(*self, entries, loaded@), 0, n as int) == first_message(
                    group_checks(*self, entries, loaded@),
                    i as int,
                    n as int,
                ),
                resolved@.dom() == keys_before(entries, i as int),
                forall|k: int|
                    0 <= k < i ==> resolved@[(#[trigger] entries[k]).0].filled(
                        *self,
                        entries[k].1.read_as(entries[k].0, loaded@),
                    ),
            decreases n - i,
        {
            let locale = sources.key_at(i);
            let spec: &SubscriptionGroupLocalizationSpec = match sources.value_at(i) {
                SubscriptionGroupLocalizationSource::Inline(spec) => spec,
                SubscriptionGroupLocalizationSource::Path(_) => loaded.get(locale.as_str()).unwrap(),
            };
            match self.resolve_subscription_group_localization(spec) {
                Ok(value) => {
                    resolved.insert(locale.clone(), value);
                    proof {
                        lemma_keys_before(entries, i as int);
                        assert(resolved@.dom() =~= keys_before(entries, i + 1));
                        assert forall|k: int| 0 <= k < i + 1 implies resolved@[(
                        #[trigger] entries[k]).0].filled(
                            *self,
                            entries[k].1.read_as(entries[k].0, loaded@),
                        ) by {
                            if k < i {
                                assert(precedes(entries[k].0, entries[i as int].0));
                                lemma_precedes_irreflexive(entries[k].0);
                            }
                        }
                    }
                },
                Err(error) => {
                    return Err(error);
                },
            }
            i += 1;
        }
        proof {
            assert(resolved@.dom() =~= sources@.dom());
            assert forall|locale: Seq<char>| #[trigger]
                sources@.dom().contains(locale) implies resolved@[locale].filled(
                *self,
                sources@[locale].read_as(locale, loaded@),
            ) by {
                lemma_lookup(entries, locale);
                let k = entry_index(entries, locale);
                assert(0 <= k < entries.len() && entries[k].0 == locale);
            }
        }
        Ok(resolved)
    }
}

impl ResolvedAppEventLocalization {
    /// The message that is due of a specification.
    pub open spec fn lacks(
        context: ResolveContext,
        spec: AppEventLocalizationSpec,
    ) -> Option<Seq<char>> {
        earlier(
            context.lacks(spec.name),
            earlier(context.lacks(spec.short_description), context.lacks(spec.long_description)),
        )
    }

    /// The texts are those of a specification.
    pub open spec fn filled(self, context: ResolveContext, spec: AppEventLocalizationSpec) -> bool {
        &&& owned(self.name) == context.optional_text(spec.name)
        &&& owned(self.short_description) == context.optional_text(spec.short_description)
        &&& owned(self.long_description) == context.optional_text(spec.long_description)
    }
}

impl ResolveContext {
    /// Fills in the localized texts of an event.
    pub fn resolve_app_event_localization(
        &self,
        spec: &AppEventLocalizationSpec,
    ) -> (result: Result<ResolvedAppEventLocalization, Error>)
        ensures
            match ResolvedAppEventLocalization::lacks(*self, *spec) {
                Some(message) => result matches Err(error) && error@ == message,
                None => result matches Ok(resolved) && resolved.filled(*self, *spec),
            },
    {
        let name = match self.resolve_optional_string(&spec.name) {
            Ok(value) => value,
            Err(error) => {
                return Err(error);
            },
        };
        let short_description = match self.resolve_optional_string(&spec.short_description) {
            Ok(value) => value,
            Err(error) => {
                return Err(error);
            },
        };
        let long_description = match self.resolve_optional_string(&spec.long_description) {
            Ok(value) => value,
            Err(error) => {
                return Err(error);
            },
        };
        Ok(ResolvedAppEventLocalization { name, short_description, long_description })
    }
}

impl AppEventLocalizationSource {
    /// The specification: as it is written out, else as the file of the locale holds it.
    pub open spec fn read_as(
        self,
        locale: Seq<char>,
        loaded: Map<Seq<char>, AppEventLocalizationSpec>,
    ) -> AppEventLocalizationSpec {
        match self {
            AppEventLocalizationSource::Inline(spec) => *spec,
            AppEventLocalizationSource::Path(_) => loaded[locale],
        }
    }
}

/// The message that is due at each locale.
pub open spec fn event_checks(
    context: ResolveContext,
    entries: Seq<(Seq<char>, AppEventLocalizationSource)>,
    loaded: Map<Seq<char>, AppEventLocalizationSpec>,
) -> spec_fn(int) -> Option<Seq<char>> {
    |i: int| ResolvedAppEventLocalization::lacks(context, entries[i].1.read_as(entries[i].0, loaded))
}

impl ResolveContext {
    /// Fills in the localized texts of an event, locale by locale. `loaded` holds, by locale, what
    /// stands in files of their own.
    pub fn resolve_app_event_localizations(
        &self,
        sources: &OrderedMap<AppEventLocalizationSource>,
        loaded: &OrderedMap<AppEventLocalizationSpec>,
    ) -> (result: Result<OrderedMap<ResolvedAppEventLocalization>, Error>)
        requires
            forall|i: int|
                0 <= i < sources.entries().len() && (#[trigger] sources.entries()[i]).1 is Path
                    ==> loaded@.contains_key(sources.entries()[i].0),
        ensures
            match first_message(
                event_checks(*self, sources.entries(), loaded@),
                0,
                sources.entries().len() as int,
            ) {
                Some(message) => result matches Err(error) && error@ == message,
                None => result matches Ok(resolved) && resolved@.dom() == sources@.dom() && (forall|
                    locale: Seq<char>,
                | #[trigger]
                    sources@.dom().contains(locale) ==> resolved@[locale].filled(
                        *self,
                        sources@[locale].read_as(locale, loaded@),
                    )),
            },
    {
        let n: usize = sources.len();
        let ghost entries = sources.entries();
        let mut resolved: OrderedMap<ResolvedAppEventLocalization> = OrderedMap::new();
        let mut i: usize = 0;
        proof {
            assert(resolved@.dom() =~= keys_before(entries, 0));
        }
        while i < n
            invariant
                i <= n == entries.len(),
                entries == sources.entries(),
                ascending(entries),
                forall|k: int|
                    0 <= k < entries.len() && (#[trigger] entries[k]).1 is Path
                        ==> loaded@.contains_key(entries[k].0),
                first_message(event_checks(*self, entries, loaded@), 0, n as int) == first_message(
                    event_checks(*self, entries, loaded@),
                    i as int,
                    n as int,
                ),
                resolved@.dom() == keys_before(entries, i as int),
                forall|k: int|
                    0 <= k < i ==> resolved@[(#[trigger] entries[k]).0].filled(
                        *self,
                        entries[k].1.read_as(entries[k].0, loaded@),
                    ),
            decreases n - i,
        {
            let locale = sources.key_at(i);
            let spec: &AppEventLocalizationSpec = match sources.value_at(i) {
                AppEventLocalizationSource::Inline(spec) => spec,
                AppEventLocalizationSource::Path(_) => loaded.get(locale.as_str()).unwrap(),
            };
            match self.resolve_app_event_localization(spec) {
                Ok(value) => {
                    resolved.insert(locale.clone(), value);
                    proof {
                        lemma_keys_before(entries, i as int);
                        assert(resolved@.dom() =~= keys_before(entries, i + 1));
                        assert forall|k: int| 0 <= k < i + 1 implies resolved@[(
                        #[trigger] entries[k]).0].filled(
                            *self,
                            entries[k].1.read_as(entries[k].0, loaded@),
                        ) by {
                            if k < i {
                                assert(precedes(entries[k].0, entries[i as int].0));
                                lemma_precedes_irreflexive(entries[k].0);
                            }
                        }
                    }
                },
                Err(error) => {
                    return Err(error);
                },
            }
            i += 1;
        }
        proof {
            assert(resolved@.dom() =~= sources@.dom());
            assert forall|locale: Seq<char>| #[trigger]
                sources@.dom().contains(locale) implies resolved@[locale].filled(
                *self,
                sources@[locale].read_as(locale, loaded@),
            ) by {
                lemma_lookup(entries, locale);
                let k = entry_index(entries, locale);
                assert(0 <= k < entries.len() && entries[k].0 == locale);
            }
        }
        Ok(resolved)
    }
}

impl ResolvedCustomProductPageLocalization {
    /// The message that is due of a specification.
    pub open spec fn lacks(
        context: ResolveContext,
        spec: CustomProductPageLocalizationSpec,
    ) -> Option<Seq<char>> {
        context.lacks(spec.promotional_text)
    }

    /// The texts are those of a specification.
    pub open spec fn filled(
        self,
        context: ResolveContext,
        spec: CustomProductPageLocalizationSpec,
    ) -> bool {
        &&& owned(self.promotional_text) == context.optional_text(spec.promotional_text)
        &&& texts(self.search_keyword_ids@) == texts(spec.search_keyword_ids@)
    }
}

impl ResolveContext {
    /// Fills in the localized texts of a custom product page.
    pub fn resolve_custom_product_page_localization(
        &self,
        spec: &CustomProductPageLocalizationSpec,
    ) -> (result: Result<ResolvedCustomProductPageLocalization, Error>)
        ensures
            match ResolvedCustomProductPageLocalization::lacks(*self, *spec) {
                Some(message) => result matches Err(error) && error@ == message,
                None => result matches Ok(resolved) && resolved.filled(*self, *spec),
            },
    {
        let promotional_text = match self.resolve_optional_string(&spec.promotional_text) {
            Ok(value) => value,
            Err(error) => {
                return Err(error);
            },
        };
        let search_keyword_ids = copy_strings(&spec.search_keyword_ids);
        Ok(ResolvedCustomProductPageLocalization { promotional_text, search_keyword_ids })
    }
}

impl CustomProductPageLocalizationSource {
    /// The specification: as it is written out, else as the file of the locale holds it.
    pub open spec fn read_as(
        self,
        locale: Seq<char>,
        loaded: Map<Seq<char>, CustomProductPageLocalizationSpec>,
    ) -> CustomProductPageLocalizationSpec {
        match self {
            CustomProductPageLocalizationSource::Inline(spec) => spec,
            CustomProductPageLocalizationSource::Path(_) => loaded[locale],
        }
    }
}

/// The message that is due at each locale.
pub open spec fn page_checks(
    context: ResolveContext,
    entries: Seq<(Seq<char>, CustomProductPageLocalizationSource)>,
    loaded: Map<Seq<char>, CustomProductPageLocalizationSpec>,
) -> spec_fn(int) -> Option<Seq<char>> {
    |i: int| ResolvedCustomProductPageLocalization::lacks(context, entries[i].1.read_as(entries[i].0, loaded))
}

impl ResolveContext {
    /// Fills in the localized texts of a custom product page, locale by locale. `loaded` holds, by locale, what
    /// stands in files of their own.
    pub fn resolve_custom_product_page_localizations(
        &self,
        sources: &OrderedMap<CustomProductPageLocalizationSource>,
        loaded: &OrderedMap<CustomProductPageLocalizationSpec>,
    ) -> (result: Result<OrderedMap<ResolvedCustomProductPageLocalization>, Error>)
        requires
            forall|i: int|
                0 <= i < sources.entries().len() && (#[trigger] sources.entries()[i]).1 is Path
                    ==> loaded@.contains_key(sources.entries()[i].0),
        ensures
            match first_message(
                page_checks(*self, sources.entries(), loaded@),
                0,
                sources.entries().len() as int,
            ) {
                Some(message) => result matches Err(error) && error@ == message,
                None => result matches Ok(resolved) && resolved@.dom() == sources@.dom() && (forall|
                    locale: Seq<char>,
                | #[trigger]
                    sources@.dom().contains(locale) ==> resolved@[locale].filled(
                        *self,
                        sources@[locale].read_as(locale, loaded@),
                    )),
            },
    {
        let n: usize = sources.len();
        let ghost entries = sources.entries();
        let mut resolved: OrderedMap<ResolvedCustomProductPageLocalization> = OrderedMap::new();
        let mut i: usize = 0;
        proof {
            assert(resolved@.dom() =~= keys_before(entries, 0));
        }
        while i < n
            invariant
                i <= n == entries.len(),
                entries == sources.entries(),
                ascending(entries),
                forall|k: int|
                    0 <= k < entries.len() && (#[trigger] entries[k]).1 is Path
                        ==> loaded@.contains_key(entries[k].0),
                first_message(page_checks(*self, entries, loaded@), 0, n as int) == first_message(
                    page_checks(*self, entries, loaded@),
                    i as int,
                    n as int,
                ),
                resolved@.dom() == keys_before(entries, i as int),
                forall|k: int|
                    0 <= k < i ==> resolved@[(#[trigger] entries[k]).0].filled(
                        *self,
                        entries[k].1.read_as(entries[k].0, loaded@),
                    ),
            decreases n - i,
        {
            let locale = sources.key_at(i);
            let spec: &CustomProductPageLocalizationSpec = match sources.value_at(i) {
                CustomProductPageLocalizationSource::Inline(spec) => spec,
                CustomProductPageLocalizationSource::Path(_) => loaded.get(locale.as_str()).unwrap(),
            };
            match self.resolve_custom_product_page_localization(spec) {
                Ok(value) => {
                    resolved.insert(locale.clone(), value);
                    proof {
                        lemma_keys_before(entries, i as int);
                        assert(resolved@.dom() =~= keys_before(entries, i + 1));
                        assert forall|k: int| 0 <= k < i + 1 implies resolved@[(
                        #[trigger] entries[k]).0].filled(
                            *self,
                            entries[k].1.read_as(entries[k].0, loaded@),
                        ) by {
                            if k < i {
                                assert(precedes(entries[k].0, entries[i as int].0));
                                lemma_precedes_irreflexive(entries[k].0);
                            }
                        }
                    }
                },
                Err(error) => {
                    return Err(error);
                },
            }
            i += 1;
        }
        proof {
            assert(resolved@.dom() =~= sources@.dom());
            assert forall|locale: Seq<char>| #[trigger]
                sources@.dom().contains(locale) implies resolved@[locale].filled(
                *self,
                sources@[locale].read_as(locale, loaded@),
            ) by {
                lemma_lookup(entries, locale);
                let k = entry_index(entries, locale);
                assert(0 <= k < entries.len() && entries[k].0 == locale);
            }
        }
        Ok(resolved)
    }
}

impl ResolvedCustomProductPage {
    /// The message that is due of a specification.
    pub open spec fn lacks(
        context: ResolveContext,
        spec: CustomProductPageSpec,
    ) -> Option<Seq<char>> {
        earlier(context.lacks(Some(spec.name)), context.lacks(spec.deep_link))
    }

    /// The texts are those of a specification.
    pub open spec fn filled(self, context: ResolveContext, spec: CustomProductPageSpec) -> bool {
        &&& Some(self.name@) == context.optional_text(Some(spec.name))
        &&& owned(self.deep_link) == context.optional_text(spec.deep_link)
        &&& self.visible == spec.visible
    }
}

impl ResolveContext {
    /// Fills in a custom product page.
    pub fn resolve_custom_product_page(
        &self,
        spec: &CustomProductPageSpec,
    ) -> (result: Result<ResolvedCustomProductPage, Error>)
        ensures
            match ResolvedCustomProductPage::lacks(*self, *spec) {
                Some(message) => result matches Err(error) && error@ == message,
                None => result matches Ok(resolved) && resolved.filled(*self, *spec),
            },
    {
        let name = match self.resolve_string(&spec.name) {
            Ok(value) => value,
            Err(error) => {
                return Err(error);
            },
        };
        let deep_link = match self.resolve_optional_string(&spec.deep_link) {
            Ok(value) => value,
            Err(error) => {
                return Err(error);
            },
        };
        Ok(ResolvedCustomProductPage { name, deep_link, visible: spec.visible })
    }
}

impl ResolvedCommerceProduct {
    /// The message that is due of a product.
    pub open spec fn lacks(
        context: ResolveContext,
        reference_name: StringSource,
        review_note: Option<StringSource>,
    ) -> Option<Seq<char>> {
        earlier(context.lacks(Some(reference_name)), context.lacks(review_note))
    }

    /// The texts are those of a specification.
    pub open spec fn filled(
        self,
        context: ResolveContext,
        reference_name: StringSource,
        review_note: Option<StringSource>,
    ) -> bool {
        &&& Some(self.reference_name@) == context.optional_text(Some(reference_name))
        &&& owned(self.review_note) == context.optional_text(review_note)
    }
}

impl ResolveContext {
    fn resolve_product(
        &self,
        reference_name: &StringSource,
        review_note: &Option<StringSource>,
    ) -> (result: Result<ResolvedCommerceProduct, Error>)
        ensures
            match ResolvedCommerceProduct::lacks(*self, *reference_name, *review_note) {
                Some(message) => result matches Err(error) && error@ == message,
                None => result matches Ok(resolved) && resolved.filled(
                    *self,
                    *reference_name,
                    *review_note,
                ),
            },
    {
        let name = match self.resolve_string(reference_name) {
            Ok(value) => value,
            Err(error) => {
                return Err(error);
            },
        };
        match self.resolve_optional_string(review_note) {
            Ok(note) => Ok(ResolvedCommerceProduct { reference_name: name, review_note: note }),
            Err(error) => Err(error),
        }
    }

    /// Fills in an in-app purchase.
    pub fn resolve_iap(&self, iap: &InAppPurchaseSpec) -> (result: Result<
        ResolvedCommerceProduct,
        Error,
    >)
        ensures
            match ResolvedCommerceProduct::lacks(*self, iap.reference_name, iap.review_note) {
                Some(message) => result matches Err(error) && error@ == message,
                None => result matches Ok(resolved) && resolved.filled(
                    *self,
                    iap.reference_name,
                    iap.review_note,
                ),
            },
    {
        self.resolve_product(&iap.reference_name, &iap.review_note)
    }

    /// Fills in a subscription.
    pub fn resolve_subscription(&self, subscription: &SubscriptionSpec) -> (result: Result<
        ResolvedCommerceProduct,
        Error,
    >)
        ensures
            match ResolvedCommerceProduct::lacks(
                *self,
                subscription.reference_name,
                subscription.review_note,
            ) {
                Some(message) => result matches Err(error) && error@ == message,
                None => result matches Ok(resolved) && resolved.filled(
                    *self,
                    subscription.reference_name,
                    subscription.review_note,
                ),
            },
    {
        self.resolve_product(&subscription.reference_name, &subscription.review_note)
    }
}

/// A list of texts as JSON.
pub open spec fn texts_view(items: Seq<Seq<char>>) -> JsonView {
    JsonView::Array(items.map_values(|item: Seq<char>| JsonView::Text(item)))
}

/// A list of texts as JSON.
pub fn texts_value(items: &Vec<String>) -> (value: Json)
    ensures
        value@ == texts_view(texts(items@)),
{
    let mut values: Vec<Json> = Vec::new();
    let mut i: usize = 0;
    while i < items.len()
        invariant
            i <= items.len(),
            values.len() == i,
            forall|k: int| 0 <= k < i ==> (#[trigger] values@[k])@ == JsonView::Text(items@[k]@),
        decreases items.len() - i,
    {
        values.push(text(items[i].as_str()));
        i += 1;
    }
    proof {
        assert(array_view(values@)->Array_0 =~= texts_view(texts(items@))->Array_0);
    }
    array(values)
}

/// A territory schedule of an event as JSON.
pub open spec fn schedule_view(schedule: AppEventTerritoryScheduleSpec) -> JsonView {
    JsonView::Object(
        map![
            "territories"@ => texts_view(texts(schedule.territories@)),
            "publishStart"@ => JsonView::Text(schedule.publish_start@),
            "eventStart"@ => JsonView::Text(schedule.event_start@),
            "eventEnd"@ => JsonView::Text(schedule.event_end@)
        ],
    )
}

fn schedule_values(schedules: &Vec<AppEventTerritoryScheduleSpec>) -> (values: Vec<Json>)
    ensures
        values@.map_values(|value: Json| value@) == schedules@.map_values(
            |schedule: AppEventTerritoryScheduleSpec| schedule_view(schedule),
        ),
{
    let mut values: Vec<Json> = Vec::new();
    let mut i: usize = 0;
    while i < schedules.len()
        invariant
            i <= schedules.len(),
            values.len() == i,
            forall|k: int| 0 <= k < i ==> (#[trigger] values@[k])@ == schedule_view(schedules@[k]),
        decreases schedules.len() - i,
    {
        let schedule = &schedules[i];
        let mut members = Members::new();
        members.put("territories", texts_value(&schedule.territories));
        members.put("publishStart", text(schedule.publish_start.as_str()));
        members.put("eventStart", text(schedule.event_start.as_str()));
        members.put("eventEnd", text(schedule.event_end.as_str()));
        values.push(members.into_json());
        i += 1;
    }
    proof {
        assert(values@.map_values(|value: Json| value@) =~= schedules@.map_values(
            |schedule: AppEventTerritoryScheduleSpec| schedule_view(schedule),
        ));
    }
    values
}

fn named(value: Option<&'static str>) -> (result: Option<String>)
    ensures
        owned(result) == crate::text::given(value),
{
    match value {
        Some(found) => Some(found.to_owned()),
        None => None,
    }
}

impl ResolvedAppEvent {
    /// The message that is due of an event.
    pub open spec fn lacks(context: ResolveContext, event: AppEventSpec) -> Option<Seq<char>> {
        earlier(
            context.lacks(Some(event.reference_name)),
            earlier(
                context.lacks(event.deep_link),
                context.lacks(event.purchase_requirement),
            ),
        )
    }

    /// The event is that of a specification.
    pub open spec fn filled(self, context: ResolveContext, event: AppEventSpec) -> bool {
        &&& Some(self.reference_name@) == context.optional_text(Some(event.reference_name))
        &&& owned(self.badge) == (match event.badge {
            Some(badge) => Some(badge.asc_value_of()),
            None => None,
        })
        &&& owned(self.deep_link) == context.optional_text(event.deep_link)
        &&& owned(self.purchase_requirement) == context.optional_text(event.purchase_requirement)
        &&& owned(self.primary_locale) == owned(event.primary_locale)
        &&& owned(self.priority) == (match event.priority {
            Some(priority) => Some(priority.asc_value_of()),
            None => None,
        })
        &&& owned(self.purpose) == (match event.purpose {
            Some(purpose) => Some(purpose.asc_value_of()),
            None => None,
        })
        &&& self.territory_schedules@.map_values(|value: Json| value@)
            == event.territory_schedules@.map_values(
            |schedule: AppEventTerritoryScheduleSpec| schedule_view(schedule),
        )
    }
}

impl ResolveContext {
    /// Fills in an event.
    pub fn resolve_app_event(&self, event: &AppEventSpec) -> (result: Result<
        ResolvedAppEvent,
        Error,
    >)
        ensures
            match ResolvedAppEvent::lacks(*self, *event) {
                Some(message) => result matches Err(error) && error@ == message,
                None => result matches Ok(resolved) && resolved.filled(*self, *event),
            },
    {
        let reference_name = match self.resolve_string(&event.reference_name) {
            Ok(value) => value,
            Err(error) => {
                return Err(error);
            },
        };
        let deep_link = match self.resolve_optional_string(&event.deep_link) {
            Ok(value) => value,
            Err(error) => {
                return Err(error);
            },
        };
        let purchase_requirement = match self.resolve_optional_string(
            &event.purchase_requirement,
        ) {
            Ok(value) => value,
            Err(error) => {
                return Err(error);
            },
        };
        let badge = named(
            match event.badge {
                Some(badge) => Some(badge.asc_value()),
                None => None,
            },
        );
        let priority = named(
            match event.priority {
                Some(priority) => Some(priority.asc_value()),
                None => None,
            },
        );
        let purpose = named(
            match event.purpose {
                Some(purpose) => Some(purpose.asc_value()),
                None => None,
            },
        );
        let primary_locale = match &event.primary_locale {
            Some(locale) => Some(locale.clone()),
            None => None,
        };
        let territory_schedules = schedule_values(&event.territory_schedules);
        Ok(
            ResolvedAppEvent {
                reference_name,
                badge,
                deep_link,
                purchase_requirement,
                primary_locale,
                priority,
                purpose,
                territory_schedules,
            },
        )
    }
}

} // verus!
