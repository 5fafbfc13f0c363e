//! Texts of the configuration, with what they take from the environment filled in.

use vstd::prelude::*;
use vstd::string::*;
use crate::app_store::{
    AppInfoLocalization, AppStoreReviewDetail, AppStoreVersionLocalization,
};
use crate::config::{
    AppInfoLocalizationSpec, AppReviewSpec, AppVersionLocalizationSpec, KeywordsSpec, StringSource,
};
use crate::json::text;
use crate::ordered::OrderedMap;
use crate::paths::{absolute, join_path, under};
use crate::text::{
    as_deref, ascii_alnum, cat, cat3, due_if, earlier, failure, fails_as, first_message, given, is_ascii_alnum, join, joined, owned, same,
    starts_with, texts, to_chars, Error,
};

verus! {

/// Where texts and files of the configuration are looked up: the directory of the configuration,
/// the environment, and the entries of its `.env` file.
#[derive(Debug)]
pub struct ResolveContext {
    pub config_dir: String,
    pub env: OrderedMap<String>,
    pub dotenv: OrderedMap<String>,
}

/// The message of a variable that is nowhere set.
pub open spec fn missing_message(key: Seq<char>) -> Seq<char> {
    "missing environment value "@ + key
}

/// A fallible lookup: the message of its failure, or its value.
pub open spec fn yields(
    result: Result<String, Error>,
    value: Result<Seq<char>, Seq<char>>,
) -> bool {
    match value {
        Ok(text) => result matches Ok(found) && found@ == text,
        Err(message) => result matches Err(error) && error@ == message,
    }
}

impl ResolveContext {
    /// The value of a variable: from the environment, else from the `.env` file.
    pub open spec fn variable(self, key: Seq<char>) -> Option<Seq<char>> {
        if self.env@.contains_key(key) {
            Some(self.env@[key]@)
        } else if self.dotenv@.contains_key(key) {
            Some(self.dotenv@[key]@)
        } else {
            None
        }
    }

    /// The text of a source, or the message that its variable is missing.
    pub open spec fn text_of(self, source: StringSource) -> Result<Seq<char>, Seq<char>> {
        match source {
            StringSource::Literal(value) => Ok(value@),
            StringSource::Env { env } => match self.variable(env@) {
                Some(value) => Ok(value),
                None => Err(missing_message(env@)),
            },
        }
    }

    /// The text of a source.
    pub fn resolve_string(&self, source: &StringSource) -> (result: Result<String, Error>)
        ensures
            yields(result, self.text_of(*source)),
    {
        match source {
            StringSource::Literal(value) => Ok(value.clone()),
            StringSource::Env { env } => {
                if let Some(value) = self.env.get(env.as_str()) {
                    return Ok(value.clone());
                }
                if let Some(value) = self.dotenv.get(env.as_str()) {
                    return Ok(value.clone());
                }
                Err(failure(cat("missing environment value ", env.as_str())))
            },
        }
    }

    /// The message that is due of a source that may be missing.
    pub open spec fn lacks(self, source: Option<StringSource>) -> Option<Seq<char>> {
        match source {
            Some(given) => match self.text_of(given) {
                Ok(_) => None,
                Err(message) => Some(message),
            },
            None => None,
        }
    }

    /// The text of a source that may be missing.
    pub open spec fn optional_text(self, source: Option<StringSource>) -> Option<Seq<char>> {
        match source {
            Some(given) => match self.text_of(given) {
                Ok(value) => Some(value),
                Err(_) => None,
            },
            None => None,
        }
    }

    /// The text of a source that may be missing.
    pub fn resolve_optional_string(&self, source: &Option<StringSource>) -> (result: Result<
        Option<String>,
        Error,
    >)
        ensures
            match self.lacks(*source) {
                Some(message) => result matches Err(error) && error@ == message,
                None => result matches Ok(value) && owned(value) == self.optional_text(*source),
            },
    {
        match source {
            Some(given) => match self.resolve_string(given) {
                Ok(value) => Ok(Some(value)),
                Err(error) => Err(error),
            },
            None => Ok(None),
        }
    }

    /// A path of the configuration, as seen from its directory.
    pub fn resolve_path(&self, path: &str) -> (result: String)
        ensures
            result@ == (if absolute(path@) {
                path@
            } else {
                under(self.config_dir@, path@)
            }),
    {
        if starts_with(path, "/") {
            path.to_owned()
        } else {
            join_path(self.config_dir.as_str(), path)
        }
    }
}

/// A media file, and what the file system tells of it.
#[derive(Debug)]
pub struct MediaPath {
    pub path: String,
    pub exists: bool,
    pub is_file: bool,
}

/// What is wrong with a media file.
pub open spec fn media_path_message(file: MediaPath) -> Option<Seq<char>> {
    earlier(
        due_if(!file.exists, "media file "@ + file.path@ + " does not exist"@),
        due_if(!file.is_file, "media path "@ + file.path@ + " is not a file"@),
    )
}

/// What is wrong with each media file.
pub open spec fn media_path_checks(files: Seq<MediaPath>) -> spec_fn(int) -> Option<Seq<char>> {
    |i: int| media_path_message(files[i])
}

/// Checks the media files that a list of paths led to: there is one, and all of them are files.
pub fn check_media_paths(files: &Vec<MediaPath>) -> (result: Result<(), Error>)
    ensures
        fails_as(
            result,
            earlier(
                due_if(files@.len() == 0, "media path list resolved to no files"@),
                first_message(media_path_checks(files@), 0, files@.len() as int),
            ),
        ),
{
    if files.len() == 0 {
        return Err(failure("media path list resolved to no files".to_owned()));
    }
    let ghost checks = media_path_checks(files@);
    let ghost n = files@.len() as int;
    let mut i: usize = 0;
    while i < files.len()
        invariant
            i <= files.len(),
            n == files@.len() > 0,
            checks == media_path_checks(files@),
            first_message(checks, 0, n) == first_message(checks, i as int, n),
        decreases files.len() - i,
    {
        let file = &files[i];
        proof {
            assert(checks(i as int) == media_path_message(files@[i as int]));
        }
        if !file.exists {
            return Err(failure(cat3("media file ", file.path.as_str(), " does not exist")));
        }
        if !file.is_file {
            return Err(failure(cat3("media path ", file.path.as_str(), " is not a file")));
        }
        i += 1;
    }
    Ok(())
}

/// The characters that make a path a pattern.
pub open spec fn glob_meta(s: Seq<char>) -> bool {
    s.contains('*') || s.contains('?') || s.contains('[')
}

/// Whether a path is a pattern.
pub fn contains_glob_meta(value: &str) -> (result: bool)
    ensures
        result == glob_meta(value@),
{
    let chars = to_chars(value);
    let mut i: usize = 0;
    while i < chars.len()
        invariant
            i <= chars.len(),
            chars@ == value@,
            forall|k: int|
                0 <= k < i ==> (#[trigger] value@[k]) != '*' && value@[k] != '?' && value@[k]
                    != '[',
        decreases chars.len() - i,
    {
        let c = chars[i];
        if c == '*' || c == '?' || c == '[' {
            proof {
                assert(value@[i as int] == c);
                assert(value@.contains(c));
            }
            return true;
        }
        i += 1;
    }
    false
}

/// A character that may stand in a directory name, else a dash.
pub open spec fn safe_char(c: char) -> char {
    if is_ascii_alnum(c) || c == '-' || c == '_' || c == '.' {
        c
    } else {
        '-'
    }
}

/// A text as a directory name: every other character becomes a dash.
pub open spec fn safe_segment(value: Seq<char>) -> Seq<char> {
    value.map_values(|c: char| safe_char(c))
}

/// A text as a directory name: every other character becomes a dash.
pub fn safe_path_segment(value: &str) -> (result: String)
    ensures
        result@ == safe_segment(value@),
        !result@.contains('/'),
{
    let chars = to_chars(value);
    let mut result = String::new();
    let mut i: usize = 0;
    proof {
        assert(value@.take(0).map_values(|c: char| safe_char(c)) =~= Seq::<char>::empty());
    }
    while i < chars.len()
        invariant
            i <= chars.len(),
            chars@ == value@,
            result@ == value@.take(i as int).map_values(|c: char| safe_char(c)),
        decreases chars.len() - i,
    {
        let c = chars[i];
        if ascii_alnum(c) || c == '-' || c == '_' || c == '.' {
            result.push(c);
        } else {
            result.push('-');
        }
        proof {
            assert(value@.take(i + 1).map_values(|c: char| safe_char(c)) =~= value@.take(
                i as int,
            ).map_values(|c: char| safe_char(c)).push(safe_char(c)));
        }
        i += 1;
    }
    proof {
        assert(value@.take(value@.len() as int) =~= value@);
        let mapped = value@.map_values(|c: char| safe_char(c));
        if mapped.contains('/') {
            let k = choose|k: int| 0 <= k < mapped.len() && mapped[k] == '/';
            assert(mapped[k] == safe_char(value@[k]));
        }
    }
    result
}

/// An app info localization with its texts filled in.
#[derive(Debug)]
pub struct ResolvedAppInfoLocalization {
    pub name: String,
    pub subtitle: Option<String>,
    pub privacy_policy_url: Option<String>,
    pub privacy_choices_url: Option<String>,
    pub privacy_policy_text: Option<String>,
}

impl ResolvedAppInfoLocalization {
    /// The message that is due of a localization.
    pub open spec fn lacks(context: ResolveContext, spec: AppInfoLocalizationSpec) -> Option<
        Seq<char>,
    > {
        earlier(
            context.lacks(Some(spec.name)),
            earlier(
                context.lacks(spec.subtitle),
                earlier(
                    context.lacks(spec.privacy_policy_url),
                    earlier(
                        context.lacks(spec.privacy_choices_url),
                        context.lacks(spec.privacy_policy_text),
                    ),
                ),
            ),
        )
    }

    /// The localization is that of a specification.
    pub open spec fn filled(self, context: ResolveContext, spec: AppInfoLocalizationSpec) -> bool {
        &&& Some(self.name@) == context.optional_text(Some(spec.name))
        &&& owned(self.subtitle) == context.optional_text(spec.subtitle)
        &&& owned(self.privacy_policy_url) == context.optional_text(spec.privacy_policy_url)
        &&& owned(self.privacy_choices_url) == context.optional_text(spec.privacy_choices_url)
        &&& owned(self.privacy_policy_text) == context.optional_text(spec.privacy_policy_text)
    }

    /// Fills in the texts of a localization.
    pub fn from_spec(context: &ResolveContext, spec: &AppInfoLocalizationSpec) -> (result: Result<
        ResolvedAppInfoLocalization,
        Error,
    >)
        ensures
            match ResolvedAppInfoLocalization::lacks(*context, *spec) {
                Some(message) => result matches Err(error) && error@ == message,
                None => result matches Ok(resolved) && resolved.filled(*context, *spec),
            },
    {
        let name = match context.resolve_string(&spec.name) {
            Ok(value) => value,
            Err(error) => {
                return Err(error);
            },
        };
        let subtitle = match context.resolve_optional_string(&spec.subtitle) {
            Ok(value) => value,
            Err(error) => {
                return Err(error);
            },
        };
        let privacy_policy_url = match context.resolve_optional_string(&spec.privacy_policy_url) {
            Ok(value) => value,
            Err(error) => {
                return Err(error);
            },
        };
        let privacy_choices_url = match context.resolve_optional_string(
            &spec.privacy_choices_url,
        ) {
            Ok(value) => value,
            Err(error) => {
                return Err(error);
            },
        };
        let privacy_policy_text = match context.resolve_optional_string(
            &spec.privacy_policy_text,
        ) {
            Ok(value) => value,
            Err(error) => {
                return Err(error);
            },
        };
        Ok(
            ResolvedAppInfoLocalization {
                name,
                subtitle,
                privacy_policy_url,
                privacy_choices_url,
                privacy_policy_text,
            },
        )
    }

    /// Every text is the one in the account, also where one is missing.
    pub open spec fn same_in(self, existing: AppInfoLocalization) -> bool {
        &&& existing.attributes.name@ == self.name@
        &&& owned(existing.attributes.subtitle) == owned(self.subtitle)
        &&& owned(existing.attributes.privacy_policy_url) == owned(self.privacy_policy_url)
        &&& owned(existing.attributes.privacy_choices_url) == owned(self.privacy_choices_url)
        &&& owned(existing.attributes.privacy_policy_text) == owned(self.privacy_policy_text)
    }

    /// Whether the account has the localization already.
    pub fn matches_existing(&self, existing: &AppInfoLocalization) -> (result: bool)
        ensures
            result == self.same_in(*existing),
    {
        same(existing.attributes.name.as_str(), self.name.as_str()) && same_optional(
            &existing.attributes.subtitle,
            &self.subtitle,
        ) && same_optional(&existing.attributes.privacy_policy_url, &self.privacy_policy_url)
            && same_optional(&existing.attributes.privacy_choices_url, &self.privacy_choices_url)
            && same_optional(&existing.attributes.privacy_policy_text, &self.privacy_policy_text)
    }
}

/// Whether two texts that may be missing are the same.
pub fn same_optional(a: &Option<String>, b: &Option<String>) -> (result: bool)
    ensures
        result == (owned(*a) == owned(*b)),
{
    match (a, b) {
        (Some(x), Some(y)) => same(x.as_str(), y.as_str()),
        (None, None) => true,
        _ => false,
    }
}

/// What is wanted is there; nothing is wanted of what is not given.
pub open spec fn wanted_is(desired: Option<Seq<char>>, existing: Option<Seq<char>>) -> bool {
    desired is Some ==> existing == desired
}

/// Whether what is wanted is there.
pub fn optional_matches(desired: Option<&str>, existing: Option<&str>) -> (result: bool)
    ensures
        result == wanted_is(given(desired), given(existing)),
{
    match desired {
        None => true,
        Some(wanted) => match existing {
            Some(found) => same(found, wanted),
            None => false,
        },
    }
}

/// A version localization with its texts filled in.
#[derive(Debug)]
pub struct ResolvedVersionLocalization {
    pub description: Option<String>,
    pub keywords: Option<String>,
    pub marketing_url: Option<String>,
    pub promotional_text: Option<String>,
    pub support_url: Option<String>,
    pub whats_new: Option<String>,
}

impl ResolveContext {
    /// The message that is due of keywords.
    pub open spec fn keywords_lack(self, keywords: Option<KeywordsSpec>) -> Option<Seq<char>> {
        match keywords {
            Some(KeywordsSpec::String(source)) => self.lacks(Some(source)),
            _ => None,
        }
    }

    /// Keywords as one text: a list is joined by commas.
    pub open spec fn keywords_text(self, keywords: Option<KeywordsSpec>) -> Option<Seq<char>> {
        match keywords {
            Some(KeywordsSpec::String(source)) => self.optional_text(Some(source)),
            Some(KeywordsSpec::List(values)) => Some(joined(texts(values@), ","@)),
            None => None,
        }
    }

    /// Keywords as one text.
    pub fn resolve_keywords(&self, keywords: &Option<KeywordsSpec>) -> (result: Result<
        Option<String>,
        Error,
    >)
        ensures
            match self.keywords_lack(*keywords) {
                Some(message) => result matches Err(error) && error@ == message,
                None => result matches Ok(value) && owned(value) == self.keywords_text(*keywords),
            },
    {
        match keywords {
            Some(KeywordsSpec::String(source)) => match self.resolve_string(source) {
                Ok(value) => Ok(Some(value)),
                Err(error) => Err(error),
            },
            Some(KeywordsSpec::List(values)) => Ok(Some(join(values, ","))),
            None => Ok(None),
        }
    }
}

impl ResolvedVersionLocalization {
    /// The message that is due of a localization.
    pub open spec fn lacks(context: ResolveContext, spec: AppVersionLocalizationSpec) -> Option<
        Seq<char>,
    > {
        earlier(
            context.keywords_lack(spec.keywords),
            earlier(
                context.lacks(spec.description),
                earlier(
                    context.lacks(spec.marketing_url),
                    earlier(
                        context.lacks(spec.promotional_text),
                        earlier(context.lacks(spec.support_url), context.lacks(spec.whats_new)),
                    ),
                ),
            ),
        )
    }

    /// The localization is that of a specification.
    pub open spec fn filled(
        self,
        context: ResolveContext,
        spec: AppVersionLocalizationSpec,
    ) -> bool {
        &&& owned(self.description) == context.optional_text(spec.description)
        &&& owned(self.keywords) == context.keywords_text(spec.keywords)
        &&& owned(self.marketing_url) == context.optional_text(spec.marketing_url)
        &&& owned(self.promotional_text) == context.optional_text(spec.promotional_text)
        &&& owned(self.support_url) == context.optional_text(spec.support_url)
        &&& owned(self.whats_new) == context.optional_text(spec.whats_new)
    }

    /// Fills in the texts of a localization.
    pub fn from_spec(context: &ResolveContext, spec: &AppVersionLocalizationSpec) -> (result:
        Result<ResolvedVersionLocalization, Error>)
        ensures
            match ResolvedVersionLocalization::lacks(*context, *spec) {
                Some(message) => result matches Err(error) && error@ == message,
                None => result matches Ok(resolved) && resolved.filled(*context, *spec),
            },
    {
        let keywords = match context.resolve_keywords(&spec.keywords) {
            Ok(value) => value,
            Err(error) => {
                return Err(error);
            },
        };
        let description = match context.resolve_optional_string(&spec.description) {
            Ok(value) => value,
            Err(error) => {
                return Err(error);
            },
        };
        let marketing_url = match context.resolve_optional_string(&spec.marketing_url) {
            Ok(value) => value,
            Err(error) => {
                return Err(error);
            },
        };
        let promotional_text = match context.resolve_optional_string(&spec.promotional_text) {
            Ok(value) => value,
            Err(error) => {
                return Err(error);
            },
        };
        let support_url = match context.resolve_optional_string(&spec.support_url) {
            Ok(value) => value,
            Err(error) => {
                return Err(error);
            },
        };
        let whats_new = match context.resolve_optional_string(&spec.whats_new) {
            Ok(value) => value,
            Err(error) => {
                return Err(error);
            },
        };
        Ok(
            ResolvedVersionLocalization {
                description,
                keywords,
                marketing_url,
                promotional_text,
                support_url,
                whats_new,
            },
        )
    }

    /// The part that can always be changed.
    pub fn promotional_text_only(self) -> (result: ResolvedVersionLocalization)
        ensures
            result.promotional_text == self.promotional_text,
            result.description is None,
            result.keywords is None,
            result.marketing_url is None,
            result.support_url is None,
            result.whats_new is None,
    {
        ResolvedVersionLocalization {
            promotional_text: self.promotional_text,
            description: None,
            keywords: None,
            marketing_url: None,
            support_url: None,
            whats_new: None,
        }
    }

    /// No text is given.
    pub open spec fn nothing(self) -> bool {
        &&& self.description is None
        &&& self.keywords is None
        &&& self.marketing_url is None
        &&& self.promotional_text is None
        &&& self.support_url is None
        &&& self.whats_new is None
    }

    /// Whether no text is given.
    pub fn is_empty(&self) -> (result: bool)
        ensures
            result == self.nothing(),
    {
        self.description.is_none() && self.keywords.is_none() && self.marketing_url.is_none()
            && self.promotional_text.is_none() && self.support_url.is_none()
            && self.whats_new.is_none()
    }

    /// Every text that is given is the one in the account.
    pub open spec fn same_in(self, existing: AppStoreVersionLocalization) -> bool {
        let found = existing.attributes;
        &&& wanted_is(owned(self.description), owned(found.description))
        &&& wanted_is(owned(self.keywords), owned(found.keywords))
        &&& wanted_is(owned(self.marketing_url), owned(found.marketing_url))
        &&& wanted_is(owned(self.promotional_text), owned(found.promotional_text))
        &&& wanted_is(owned(self.support_url), owned(found.support_url))
        &&& wanted_is(owned(self.whats_new), owned(found.whats_new))
    }

    /// Whether the account has the localization already.
    pub fn matches_existing(&self, existing: &AppStoreVersionLocalization) -> (result: bool)
        ensures
            result == self.same_in(*existing),
    {
        let found = &existing.attributes;
        optional_matches(as_deref(&self.description), as_deref(&found.description))
            && optional_matches(as_deref(&self.keywords), as_deref(&found.keywords))
            && optional_matches(as_deref(&self.marketing_url), as_deref(&found.marketing_url))
            && optional_matches(
            as_deref(&self.promotional_text),
            as_deref(&found.promotional_text),
        ) && optional_matches(as_deref(&self.support_url), as_deref(&found.support_url))
            && optional_matches(as_deref(&self.whats_new), as_deref(&found.whats_new))
    }
}

/// Review details with their texts filled in.
#[derive(Debug)]
pub struct ResolvedReview {
    pub contact_first_name: Option<String>,
    pub contact_last_name: Option<String>,
    pub contact_phone: Option<String>,
    pub contact_email: Option<String>,
    pub demo_account_name: Option<String>,
    pub demo_account_password: Option<String>,
    pub demo_account_required: Option<bool>,
    pub notes: Option<String>,
}

impl ResolvedReview {
    /// The message that is due of review details.
    pub open spec fn lacks(context: ResolveContext, spec: AppReviewSpec) -> Option<Seq<char>> {
        earlier(
            context.lacks(spec.contact_first_name),
            earlier(
                context.lacks(spec.contact_last_name),
                earlier(
                    context.lacks(spec.contact_phone),
                    earlier(
                        context.lacks(spec.contact_email),
                        earlier(
                            context.lacks(spec.demo_account_name),
                            earlier(
                                context.lacks(spec.demo_account_password),
                                context.lacks(spec.notes),
                            ),
                        ),
                    ),
                ),
            ),
        )
    }

    /// The review details are those of a specification.
    pub open spec fn filled(self, context: ResolveContext, spec: AppReviewSpec) -> bool {
        &&& owned(self.contact_first_name) == context.optional_text(spec.contact_first_name)
        &&& owned(self.contact_last_name) == context.optional_text(spec.contact_last_name)
        &&& owned(self.contact_phone) == context.optional_text(spec.contact_phone)
        &&& owned(self.contact_email) == context.optional_text(spec.contact_email)
        &&& owned(self.demo_account_name) == context.optional_text(spec.demo_account_name)
        &&& owned(self.demo_account_password) == context.optional_text(spec.demo_account_password)
        &&& self.demo_account_required == spec.demo_account_required
        &&& owned(self.notes) == context.optional_text(spec.notes)
    }

    /// Every detail that is given is the one in the account.
    pub open spec fn same_in(self, existing: AppStoreReviewDetail) -> bool {
        let found = existing.attributes;
        &&& wanted_is(owned(self.contact_first_name), owned(found.contact_first_name))
        &&& wanted_is(owned(self.contact_last_name), owned(found.contact_last_name))
        &&& wanted_is(owned(self.contact_phone), owned(found.contact_phone))
        &&& wanted_is(owned(self.contact_email), owned(found.contact_email))
        &&& wanted_is(owned(self.demo_account_name), owned(found.demo_account_name))
        &&& wanted_is(owned(self.demo_account_password), owned(found.demo_account_password))
        &&& self.demo_account_required is Some ==> found.demo_account_required
            == self.demo_account_required
        &&& wanted_is(owned(self.notes), owned(found.notes))
    }

    /// Whether the account has the details already.
    pub fn matches_existing(&self, existing: &AppStoreReviewDetail) -> (result: bool)
        ensures
            result == self.same_in(*existing),
    {
        let found = &existing.attributes;
        let required = match self.demo_account_required {
            None => true,
            Some(wanted) => match found.demo_account_required {
                Some(value) => value == wanted,
                None => false,
            },
        };
        optional_matches(as_deref(&self.contact_first_name), as_deref(&found.contact_first_name))
            && optional_matches(
            as_deref(&self.contact_last_name),
            as_deref(&found.contact_last_name),
        ) && optional_matches(as_deref(&self.contact_phone), as_deref(&found.contact_phone))
            && optional_matches(as_deref(&self.contact_email), as_deref(&found.contact_email))
            && optional_matches(
            as_deref(&self.demo_account_name),
            as_deref(&found.demo_account_name),
        ) && optional_matches(
            as_deref(&self.demo_account_password),
            as_deref(&found.demo_account_password),
        ) && required && optional_matches(as_deref(&self.notes), as_deref(&found.notes))
    }
}

impl ResolveContext {
    /// Fills in the texts of review details.
    pub fn resolve_review(&self, review: &AppReviewSpec) -> (result: Result<ResolvedReview, Error>)
        ensures
            match ResolvedReview::lacks(*self, *review) {
                Some(message) => result matches Err(error) && error@ == message,
                None => result matches Ok(resolved) && resolved.filled(*self, *review),
            },
    {
        let contact_first_name = match self.resolve_optional_string(&review.contact_first_name) {
            Ok(value) => value,
            Err(error) => {
                return Err(error);
            },
        };
        let contact_last_name = match self.resolve_optional_string(&review.contact_last_name) {
            Ok(value) => value,
            Err(error) => {
                return Err(error);
            },
        };
        let contact_phone = match self.resolve_optional_string(&review.contact_phone) {
            Ok(value) => value,
            Err(error) => {
                return Err(error);
            },
        };
        let contact_email = match self.resolve_optional_string(&review.contact_email) {
            Ok(value) => value,
            Err(error) => {
                return Err(error);
            },
        };
        let demo_account_name = match self.resolve_optional_string(&review.demo_account_name) {
            Ok(value) => value,
            Err(error) => {
                return Err(error);
            },
        };
        let demo_account_password = match self.resolve_optional_string(
            &review.demo_account_password,
        ) {
            Ok(value) => value,
            Err(error) => {
                return Err(error);
            },
        };
        let notes = match self.resolve_optional_string(&review.notes) {
            Ok(value) => value,
            Err(error) => {
                return Err(error);
            },
        };
        Ok(
            ResolvedReview {
                contact_first_name,
                contact_last_name,
                contact_phone,
                contact_email,
                demo_account_name,
                demo_account_password,
                demo_account_required: review.demo_account_required,
                notes,
            },
        )
    }
}

} // verus!
