//! An episode a catalogue lists but the library lacks, as shown to clients.

use vstd::prelude::*;
use crate::identity::{provider, set_provider, ProviderIds};
use crate::text::{i64_to_padded_string, i64_to_string, int_decimal, int_decimal_padded, owned};
use crate::userdata::{empty_user_data_for_item, is_empty_data, opt_view, UserItemData};
use crate::ids::{simple_form, simple_id};

verus! {

/// What a missing episode is shown from: the catalogue's entry and the
/// series it belongs to.
pub struct MissingEpisodeSource {
    /// The id the catalogue entry is known by.
    pub virtual_id: u128,
    /// The id of the series.
    pub series_uuid: u128,
    pub external_series_id: String,
    pub external_season_id: Option<String>,
    pub external_episode_id: Option<String>,
    pub season_number: i32,
    pub episode_number: i32,
    pub episode_number_end: Option<i32>,
    pub name: String,
    pub overview: Option<String>,
    /// The year of the episode's premiere date, if it has one.
    pub premiere_year: Option<i32>,
    pub has_image: bool,
    pub series_name: String,
    pub series_sort_name: String,
    pub series_overview: Option<String>,
    pub series_production_year: Option<i32>,
    pub series_provider_ids: ProviderIds,
    pub series_has_primary_image: bool,
    pub series_has_backdrop: bool,
    pub series_has_logo: bool,
    pub series_has_thumb: bool,
    /// When the series was last changed, in seconds since the Unix epoch.
    pub series_modified_seconds: i64,
}

/// A missing episode as shown to clients.
pub struct MissingEpisodeView {
    pub id: String,
    pub item_type: String,
    pub location_type: String,
    pub name: String,
    pub etag: String,
    pub presentation_unique_key: String,
    pub sort_name: String,
    pub season_name: String,
    pub series_name: String,
    pub series_id: String,
    pub index_number: i32,
    pub index_number_end: Option<i32>,
    pub parent_index_number: i32,
    pub production_year: Option<i32>,
    pub overview: Option<String>,
    pub provider_ids: ProviderIds,
    pub primary_image_tag: Option<String>,
    pub backdrop_image_tags: Vec<String>,
    pub parent_backdrop_image_tags: Vec<String>,
    pub parent_thumb_image_tag: Option<String>,
    pub parent_logo_image_tag: Option<String>,
    pub series_primary_image_tag: Option<String>,
    pub user_data: UserItemData,
}

/// The provider ids of a missing episode: the series' ids, with `Tmdb` set
/// to the catalogue's series id and `TmdbEpisode` / `TmdbSeason` to the
/// episode and season ids where the catalogue has them.
pub open spec fn missing_providers(src: MissingEpisodeSource, k: Seq<char>) -> Option<Seq<char>> {
    if k == "TmdbSeason"@ && src.external_season_id is Some {
        Some(src.external_season_id->0@)
    } else if k == "TmdbEpisode"@ && src.external_episode_id is Some {
        Some(src.external_episode_id->0@)
    } else if k == "Tmdb"@ {
        Some(src.external_series_id@)
    } else {
        provider(src.series_provider_ids.entries@, k)
    }
}

/// The optional tag an image has: the series' change time when present.
pub open spec fn tag_if(present: bool, tag: Seq<char>) -> Option<Seq<char>> {
    if present {
        Some(tag)
    } else {
        None
    }
}

/// The texts of a list of strings.
pub open spec fn texts(v: Seq<String>) -> Seq<Seq<char>> {
    v.map_values(|s: String| s@)
}

/// Whether `v` shows the missing episode `src`: a virtual `Episode` known
/// by the catalogue entry's id, under the series' id; its tags are the series'
/// change time; it sorts by zero-padded season and episode numbers and the
/// series' sort name; its season is named `Season N`; its year is the
/// premiere's, else the series'; its overview its own, else the series'.
pub open spec fn shows_missing(v: MissingEpisodeView, src: MissingEpisodeSource) -> bool {
    let tag = int_decimal(src.series_modified_seconds as int);
    &&& v.id@ == simple_form(src.virtual_id)
    &&& v.item_type@ == "Episode"@
    &&& v.location_type@ == "Virtual"@
    &&& v.name@ == src.name@
    &&& v.etag@ == tag
    &&& v.presentation_unique_key@ == simple_form(src.virtual_id) + "_missing"@
    &&& v.sort_name@ == int_decimal_padded(src.season_number as int, 4) + "-"@ + int_decimal_padded(
        src.episode_number as int,
        4,
    ) + "-"@ + src.series_sort_name@
    &&& v.season_name@ == "Season "@ + int_decimal(src.season_number as int)
    &&& v.series_name@ == src.series_name@
    &&& v.series_id@ == simple_form(src.series_uuid)
    &&& v.index_number == src.episode_number
    &&& v.index_number_end == src.episode_number_end
    &&& v.parent_index_number == src.season_number
    &&& v.production_year == (if src.premiere_year is Some {
        src.premiere_year
    } else {
        src.series_production_year
    })
    &&& opt_view(v.overview) == (if src.overview is Some {
        opt_view(src.overview)
    } else {
        opt_view(src.series_overview)
    })
    &&& (forall|k: Seq<char>| #[trigger] provider(v.provider_ids.entries@, k) == missing_providers(src, k))
    &&& opt_view(v.primary_image_tag) == tag_if(src.has_image, tag)
    &&& texts(v.backdrop_image_tags@) == (if src.series_has_backdrop { seq![tag] } else { Seq::empty() })
    &&& texts(v.parent_backdrop_image_tags@) == (if src.series_has_backdrop { seq![tag] } else { Seq::empty() })
    &&& opt_view(v.parent_thumb_image_tag) == tag_if(src.series_has_thumb, tag)
    &&& opt_view(v.parent_logo_image_tag) == tag_if(src.series_has_logo, tag)
    &&& opt_view(v.series_primary_image_tag) == tag_if(src.series_has_primary_image, tag)
    &&& is_empty_data(UserItemData { key: None, item_id: None, ..v.user_data })
    &&& opt_view(v.user_data.key) == Some(simple_form(src.virtual_id))
    &&& opt_view(v.user_data.item_id) == Some(simple_form(src.virtual_id))
}

fn tag_when(present: bool, seconds: i64) -> (r: Option<String>)
    ensures
        opt_view(r) == tag_if(present, int_decimal(seconds as int)),
{
    if present {
        Some(i64_to_string(seconds))
    } else {
        None
    }
}

fn tags_when(present: bool, seconds: i64) -> (r: Vec<String>)
    ensures
        texts(r@) == (if present { seq![int_decimal(seconds as int)] } else { Seq::<Seq<char>>::empty() }),
{
    let mut out: Vec<String> = Vec::new();
    if present {
        out.push(i64_to_string(seconds));
        assert(texts(out@) =~= seq![int_decimal(seconds as int)]);
    } else {
        assert(texts(out@) =~= Seq::<Seq<char>>::empty());
    }
    out
}

/// A missing episode as shown to clients (see `shows_missing`).
pub fn missing_episode_view(src: MissingEpisodeSource) -> (r: MissingEpisodeView)
    ensures
        shows_missing(r, src),
{
    let ghost s = src;
    let secs = src.series_modified_seconds;
    let mut providers = set_provider(&src.series_provider_ids, "Tmdb", src.external_series_id);
    match src.external_episode_id {
        Some(v) => {
            providers = set_provider(&providers, "TmdbEpisode", v);
        },
        None => {},
    }
    match src.external_season_id {
        Some(v) => {
            providers = set_provider(&providers, "TmdbSeason", v);
        },
        None => {},
    }
    proof {
        reveal_strlit("Tmdb");
        reveal_strlit("TmdbEpisode");
        reveal_strlit("TmdbSeason");
        assert("Tmdb"@.len() == 4 && "TmdbEpisode"@.len() == 11 && "TmdbSeason"@.len() == 10);
        assert forall|k: Seq<char>| #[trigger] provider(providers.entries@, k) == missing_providers(s, k) by {
            if k == "TmdbSeason"@ {
                assert(k != "Tmdb"@ && k != "TmdbEpisode"@);
            }
            if k == "TmdbEpisode"@ {
                assert(k != "Tmdb"@ && k != "TmdbSeason"@);
            }
            if k == "Tmdb"@ {
                assert(k != "TmdbSeason"@ && k != "TmdbEpisode"@);
            }
        }
    }
    let id = simple_id(src.virtual_id);
    let mut key = owned(id.as_str());
    key.append("_missing");
    let mut sort_name = i64_to_padded_string(src.season_number as i64, 4);
    sort_name.append("-");
    let episode = i64_to_padded_string(src.episode_number as i64, 4);
    sort_name.append(episode.as_str());
    sort_name.append("-");
    sort_name.append(src.series_sort_name.as_str());
    let mut season_name = owned("Season ");
    let number = i64_to_string(src.season_number as i64);
    season_name.append(number.as_str());
    let production_year = match src.premiere_year {
        Some(y) => Some(y),
        None => src.series_production_year,
    };
    let overview = match src.overview {
        Some(o) => Some(o),
        None => src.series_overview,
    };
    MissingEpisodeView {
        id,
        item_type: owned("Episode"),
        location_type: owned("Virtual"),
        name: src.name,
        etag: i64_to_string(secs),
        presentation_unique_key: key,
        sort_name,
        season_name,
        series_name: src.series_name,
        series_id: simple_id(src.series_uuid),
        index_number: src.episode_number,
        index_number_end: src.episode_number_end,
        parent_index_number: src.season_number,
        production_year,
        overview,
        provider_ids: providers,
        primary_image_tag: tag_when(src.has_image, secs),
        backdrop_image_tags: tags_when(src.series_has_backdrop, secs),
        parent_backdrop_image_tags: tags_when(src.series_has_backdrop, secs),
        parent_thumb_image_tag: tag_when(src.series_has_thumb, secs),
        parent_logo_image_tag: tag_when(src.series_has_logo, secs),
        series_primary_image_tag: tag_when(src.series_has_primary_image, secs),
        user_data: empty_user_data_for_item(src.virtual_id),
    }
}

} // verus!
