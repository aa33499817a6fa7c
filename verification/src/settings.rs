//! The relays that the user has set up.
use crate::seqs;
use crate::store::MessagingStore;
use crate::store::PrivateServerSetting;
use crate::store::PrivateServerSettings;
use crate::store::ServerSettingView;
use crate::store::ServerSettingsView;
use crate::store::StoreView;
use crate::text;
use crate::urls;
use vstd::prelude::*;

verus! {

/// How many relays can be set up.
pub const MAX_PRIVATE_SERVERS: usize = 32;

/// The setting has the id.
pub open spec fn setting_is(id: Seq<char>) -> spec_fn(ServerSettingView) -> bool {
    |s: ServerSettingView| s.id == id
}

/// The setting is that of the relay at a URL.
pub open spec fn relay_is(url: Seq<char>) -> spec_fn(ServerSettingView) -> bool {
    |s: ServerSettingView| s.onion == url
}

/// A setting without white space around its parts, under the URL that its relay is known by.
pub open spec fn tidied(s: ServerSettingView) -> ServerSettingView {
    ServerSettingView {
        id: text::trimmed(s.id),
        name: text::trimmed(s.name),
        onion: urls::normalized(text::trimmed(s.onion)),
    }
}

/// The settings that are kept: those with an id and a name, the first under each id; a relay
/// that is not an onion service is refused.
pub open spec fn kept_settings(s: Seq<ServerSettingView>) -> Result<
    Seq<ServerSettingView>,
    Seq<char>,
>
    decreases s.len(),
{
    if s.len() == 0 {
        Ok(Seq::empty())
    } else {
        match kept_settings(s.drop_last()) {
            Err(e) => Err(e),
            Ok(before) => {
                let t = tidied(s.last());
                if t.id.len() == 0 || t.name.len() == 0 || seqs::find(
                    before,
                    setting_is(t.id),
                ) is Some {
                    Ok(before)
                } else if !urls::onion_url(t.onion) {
                    Err("private servers must be ws:// .onion WebSocket URLs"@)
                } else {
                    Ok(before.push(t))
                }
            },
        }
    }
}

/// The first settings, as many as are looked at.
pub open spec fn first_settings(s: Seq<ServerSettingView>) -> Seq<ServerSettingView> {
    if s.len() <= MAX_PRIVATE_SERVERS {
        s
    } else {
        s.take(MAX_PRIVATE_SERVERS as int)
    }
}

/// The relay to use by default, where it is one of those kept.
pub open spec fn kept_default(url: Option<Seq<char>>, kept: Seq<ServerSettingView>) -> Option<
    Seq<char>,
> {
    match url {
        Some(u) => if seqs::find(kept, relay_is(urls::normalized(u))) is Some {
            Some(urls::normalized(u))
        } else {
            None
        },
        None => None,
    }
}

/// The store after the settings were saved, and the settings as they are kept.
pub open spec fn saved(st: StoreView, s: ServerSettingsView) -> (
    StoreView,
    Result<ServerSettingsView, Seq<char>>,
) {
    match kept_settings(first_settings(s.private_servers)) {
        Err(e) => (st, Err(e)),
        Ok(kept) => {
            let out = ServerSettingsView {
                private_servers: kept,
                default_server_url: kept_default(s.default_server_url, kept),
            };
            (
                StoreView {
                    private_servers: out.private_servers,
                    default_server_url: out.default_server_url,
                    ..st
                },
                Ok(out),
            )
        },
    }
}

proof fn kept_settings_fail(s: Seq<ServerSettingView>, i: int, e: Seq<char>)
    requires
        0 <= i <= s.len(),
        kept_settings(s.take(i)) == Err::<Seq<ServerSettingView>, Seq<char>>(e),
    ensures
        kept_settings(s) == Err::<Seq<ServerSettingView>, Seq<char>>(e),
    decreases s.len() - i,
{
    if i < s.len() {
        seqs::take_step(s, i);
        kept_settings_fail(s, i + 1, e);
    } else {
        assert(s.take(i) =~= s);
    }
}

fn has_id(kept: &Vec<PrivateServerSetting>, id: &str) -> (r: bool)
    ensures
        r == (seqs::find(seqs::views(kept@), setting_is(id@)) is Some),
{
    let ghost all = seqs::views(kept@);
    let mut i: usize = 0;
    while i < kept.len()
        invariant
            i <= kept@.len(),
            all == seqs::views(kept@),
            forall|j: int| 0 <= j < i ==> !setting_is(id@)(#[trigger] all[j]),
        decreases kept@.len() - i,
    {
        if text::same_text(kept[i].id.as_str(), id) {
            proof {
                seqs::find_is(all, setting_is(id@), i as int);
            }
            return true;
        }
        i = i + 1;
    }
    proof {
        seqs::find_none(all, setting_is(id@));
    }
    false
}

fn has_relay(kept: &Vec<PrivateServerSetting>, url: &str) -> (r: bool)
    ensures
        r == (seqs::find(seqs::views(kept@), relay_is(url@)) is Some),
{
    let ghost all = seqs::views(kept@);
    let mut i: usize = 0;
    while i < kept.len()
        invariant
            i <= kept@.len(),
            all == seqs::views(kept@),
            forall|j: int| 0 <= j < i ==> !relay_is(url@)(#[trigger] all[j]),
        decreases kept@.len() - i,
    {
        if text::same_text(kept[i].onion.as_str(), url) {
            proof {
                seqs::find_is(all, relay_is(url@), i as int);
            }
            return true;
        }
        i = i + 1;
    }
    proof {
        seqs::find_none(all, relay_is(url@));
    }
    false
}

/// The result of keeping settings.
pub open spec fn settings_outcome(r: Result<Vec<PrivateServerSetting>, String>) -> Result<
    Seq<ServerSettingView>,
    Seq<char>,
> {
    match r {
        Ok(v) => Ok(seqs::views(v@)),
        Err(e) => Err(e@),
    }
}

fn keep_settings(given: &Vec<PrivateServerSetting>) -> (r: Result<
    Vec<PrivateServerSetting>,
    String,
>)
    ensures
        settings_outcome(r) == kept_settings(first_settings(seqs::views(given@))),
{
    let ghost all = first_settings(seqs::views(given@));
    let n: usize = if given.len() <= MAX_PRIVATE_SERVERS {
        given.len()
    } else {
        MAX_PRIVATE_SERVERS
    };
    let mut out: Vec<PrivateServerSetting> = Vec::new();
    let mut i: usize = 0;
    proof {
        assert(all.take(0) =~= Seq::<ServerSettingView>::empty());
        assert(seqs::views(out@) =~= Seq::<ServerSettingView>::empty());
    }
    while i < n
        invariant
            i <= n,
            n <= given@.len(),
            n == all.len(),
            all == first_settings(seqs::views(given@)),
            kept_settings(all.take(i as int)) == Ok::<Seq<ServerSettingView>, Seq<char>>(
                seqs::views(out@),
            ),
        decreases n - i,
    {
        proof {
            seqs::take_step(all, i as int);
            assert(all[i as int] == given@[i as int]@);
        }
        let id = text::trim(given[i].id.as_str());
        let name = text::trim(given[i].name.as_str());
        let trimmed = text::trim(given[i].onion.as_str());
        let onion = urls::normalize_url(trimmed.as_str());
        if !id.as_str().is_empty() && !name.as_str().is_empty() && !has_id(&out, id.as_str()) {
            if !urls::is_private_onion_ws_url(onion.as_str()) {
                let e = "private servers must be ws:// .onion WebSocket URLs".to_string();
                proof {
                    kept_settings_fail(all, i + 1, e@);
                }
                return Err(e);
            }
            let s = PrivateServerSetting { id, name, onion };
            proof {
                seqs::views_push(out@, s);
            }
            out.push(s);
        }
        i = i + 1;
    }
    proof {
        assert(all.take(i as int) =~= all);
    }
    Ok(out)
}

/// Saves the settings, and tells what is kept of them.
pub fn save_private_server_settings(store: &mut MessagingStore, settings: PrivateServerSettings)
    -> (r: Result<PrivateServerSettings, String>)
    ensures
        (final(store)@, seqs::outcome(r)) == saved(old(store)@, settings@),
{
    let kept = match keep_settings(&settings.private_servers) {
        Ok(k) => k,
        Err(e) => {
            return Err(e);
        },
    };
    let default_server_url = match settings.default_server_url {
        Some(u) => {
            let url = urls::normalize_url(u.as_str());
            if has_relay(&kept, url.as_str()) {
                Some(url)
            } else {
                None
            }
        },
        None => None,
    };
    store.private_servers = seqs::duplicate_vec(&kept);
    store.default_server_url = default_server_url.clone();
    Ok(PrivateServerSettings { private_servers: kept, default_server_url })
}

/// The settings in the store.
pub fn load_private_server_settings(store: &MessagingStore) -> (r: PrivateServerSettings)
    ensures
        r@ == (ServerSettingsView {
            private_servers: store@.private_servers,
            default_server_url: store@.default_server_url,
        }),
{
    PrivateServerSettings {
        private_servers: seqs::duplicate_vec(&store.private_servers),
        default_server_url: store.default_server_url.clone(),
    }
}

/// What is kept of settings: at most as many as were given, each with an id and a name, no id
/// twice, and onion services only.
pub proof fn kept_settings_are_sound(s: Seq<ServerSettingView>)
    ensures
        kept_settings(s) matches Ok(kept) ==> {
            &&& kept.len() <= s.len()
            &&& forall|i: int|
                0 <= i < kept.len() ==> (#[trigger] kept[i]).id.len() > 0 && kept[i].name.len() > 0
                    && urls::onion_url(kept[i].onion)
            &&& forall|i: int, j: int|
                0 <= i < j < kept.len() ==> (#[trigger] kept[i]).id != (#[trigger] kept[j]).id
        },
    decreases s.len(),
{
    if s.len() > 0 {
        kept_settings_are_sound(s.drop_last());
        if let Ok(before) = kept_settings(s.drop_last()) {
            let t = tidied(s.last());
            seqs::find_spec(before, setting_is(t.id));
            assert(seqs::find(before, setting_is(t.id)) is None ==> forall|i: int|
                0 <= i < before.len() ==> (#[trigger] before[i]).id != t.id) by {
                if seqs::find(before, setting_is(t.id)) is None {
                    assert forall|i: int| 0 <= i < before.len() implies (
                    #[trigger] before[i]).id != t.id by {
                        assert(!setting_is(t.id)(before[i]));
                    }
                }
            }
        }
    }
}

} // verus!
