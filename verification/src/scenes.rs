//! Built-in scenes: their ids, and how a saved scene reference is restored
//! when the plugin starts.
use vstd::prelude::*;

verus! {

/// The synthesized scenes the plugin can play with no file loaded.
#[derive(PartialEq, Eq, Structural, Clone, Copy, Debug)]
pub enum Scene {
    Pad,
    Choir,
    Bell,
    Noise,
}

pub open spec fn scene_name(scene: Scene) -> Seq<char> {
    match scene {
        Scene::Pad => "Pad"@,
        Scene::Choir => "Choir"@,
        Scene::Bell => "Bell"@,
        Scene::Noise => "Noise"@,
    }
}

/// The scene a name denotes, if any.
pub open spec fn scene_named(id: Seq<char>) -> Option<Scene> {
    if id == "Pad"@ {
        Some(Scene::Pad)
    } else if id == "Choir"@ {
        Some(Scene::Choir)
    } else if id == "Bell"@ {
        Some(Scene::Bell)
    } else if id == "Noise"@ {
        Some(Scene::Noise)
    } else {
        None
    }
}

/// The scene's id, as shown and as saved.
pub fn scene_id(scene: Scene) -> (r: &'static str)
    ensures
        r@ == scene_name(scene),
        scene == Scene::Pad ==> r@ == "Pad"@,
        scene == Scene::Choir ==> r@ == "Choir"@,
        scene == Scene::Bell ==> r@ == "Bell"@,
        scene == Scene::Noise ==> r@ == "Noise"@,
{
    match scene {
        Scene::Pad => "Pad",
        Scene::Choir => "Choir",
        Scene::Bell => "Bell",
        Scene::Noise => "Noise",
    }
}

/// Character-wise equality of two strings.
fn str_eq(a: &str, b: &str) -> (r: bool)
    ensures
        r == (a@ == b@),
{
    let n = a.unicode_len();
    if n != b.unicode_len() {
        return false;
    }
    let mut i: usize = 0;
    while i < n
        invariant
            n == a@.len(),
            n == b@.len(),
            i <= n,
            forall|j: int| 0 <= j < i ==> a@[j] == b@[j],
        decreases n - i,
    {
        if a.get_char(i) != b.get_char(i) {
            return false;
        }
        i = i + 1;
    }
    assert(a@ =~= b@);
    true
}

/// Whether `s` begins with `prefix`.
fn has_prefix(s: &str, prefix: &str) -> (r: bool)
    ensures
        r == (prefix@.len() <= s@.len() && s@.subrange(0, prefix@.len() as int) == prefix@),
{
    let n = prefix.unicode_len();
    if n > s.unicode_len() {
        return false;
    }
    let mut i: usize = 0;
    while i < n
        invariant
            n == prefix@.len(),
            n <= s@.len(),
            i <= n,
            forall|j: int| 0 <= j < i ==> s@[j] == prefix@[j],
        decreases n - i,
    {
        if s.get_char(i) != prefix.get_char(i) {
            assert(s@.subrange(0, n as int)[i as int] != prefix@[i as int]);
            return false;
        }
        i = i + 1;
    }
    assert(s@.subrange(0, n as int) =~= prefix@);
    true
}

/// The scene a saved id names; `None` for anything else.
pub fn scene_from_id(id: &str) -> (r: Option<Scene>)
    ensures
        r == scene_named(id@),
        id@ == "Pad"@ ==> r == Some(Scene::Pad),
        id@ == "Choir"@ ==> r == Some(Scene::Choir),
        id@ == "Bell"@ ==> r == Some(Scene::Bell),
        id@ == "Noise"@ ==> r == Some(Scene::Noise),
{
    proof {
        lemma_scene_ids_are_names();
    }
    if str_eq(id, "Pad") {
        Some(Scene::Pad)
    } else if str_eq(id, "Choir") {
        Some(Scene::Choir)
    } else if str_eq(id, "Bell") {
        Some(Scene::Bell)
    } else if str_eq(id, "Noise") {
        Some(Scene::Noise)
    } else {
        None
    }
}

/// Every scene's id names that scene back.
pub proof fn lemma_scene_id_round_trip(scene: Scene)
    ensures
        scene_named(scene_name(scene)) == Some(scene),
{
    reveal_strlit("Pad");
    reveal_strlit("Choir");
    reveal_strlit("Bell");
    reveal_strlit("Noise");
    assert("Choir"@ != "Pad"@ && "Bell"@ != "Pad"@ && "Noise"@ != "Pad"@) by {
        assert("Pad"@.len() == 3);
        assert("Bell"@.len() == 4);
        assert("Choir"@.len() == 5);
        assert("Noise"@.len() == 5);
    }
    assert("Bell"@ != "Choir"@ && "Noise"@ != "Choir"@ && "Noise"@ != "Bell"@) by {
        assert("Bell"@.len() == 4);
        assert("Choir"@.len() == 5);
        assert("Noise"@[0] == 'N');
        assert("Choir"@[0] == 'C');
    }
}

/// The saved reference of a built-in scene.
pub open spec fn builtin_key_name(scene: Scene) -> Seq<char> {
    "builtin:"@ + scene_name(scene)
}

/// The saved reference that selects live-input capture.
pub open spec fn live_key_name() -> Seq<char> {
    "live"@
}

/// What a saved scene reference asks for at start-up.
#[derive(PartialEq, Eq, Structural, Clone, Copy, Debug)]
pub enum Restore {
    /// Capture the host input instead of playing a scene.
    Live,
    /// Synthesize this built-in scene.
    Builtin(Scene),
    /// Load the saved path as a WAV file.
    File,
    /// Nothing saved: start on the built-in Pad and save that choice.
    Fresh,
}

/// The start-up plan for a saved reference `path` (`None` = nothing saved).
/// A `builtin:` reference whose name is unknown falls back to the Pad.
pub open spec fn restore_model(path: Option<Seq<char>>) -> Restore {
    match path {
        None => Restore::Fresh,
        Some(p) => if p == live_key_name() {
            Restore::Live
        } else if "builtin:"@.len() <= p.len() && p.subrange(0, "builtin:"@.len() as int)
            == "builtin:"@ {
            Restore::Builtin(
                match scene_named(p.subrange("builtin:"@.len() as int, p.len() as int)) {
                    Some(s) => s,
                    None => Scene::Pad,
                },
            )
        } else {
            Restore::File
        },
    }
}

/// Decide how to restore the scene from the saved reference.
pub fn restore_plan(path: Option<&str>) -> (r: Restore)
    ensures
        r == restore_model(
            match path {
                Some(p) => Some(p@),
                None => None,
            },
        ),
{
    match path {
        None => Restore::Fresh,
        Some(p) => {
            if str_eq(p, "live") {
                Restore::Live
            } else if has_prefix(p, "builtin:") {
                let start = "builtin:".unicode_len();
                let rest = p.substring_char(start, p.unicode_len());
                match scene_from_id(rest) {
                    Some(s) => Restore::Builtin(s),
                    None => Restore::Builtin(Scene::Pad),
                }
            } else {
                Restore::File
            }
        },
    }
}

/// The saved reference of a built-in scene: `builtin:` and its id.
pub fn builtin_key(scene: Scene) -> (r: &'static str)
    ensures
        r@ == builtin_key_name(scene),
        scene == Scene::Pad ==> r@ == "builtin:Pad"@,
        scene == Scene::Choir ==> r@ == "builtin:Choir"@,
        scene == Scene::Bell ==> r@ == "builtin:Bell"@,
        scene == Scene::Noise ==> r@ == "builtin:Noise"@,
{
    proof {
        reveal_strlit("builtin:");
        reveal_strlit("Pad");
        reveal_strlit("Choir");
        reveal_strlit("Bell");
        reveal_strlit("Noise");
        reveal_strlit("builtin:Pad");
        reveal_strlit("builtin:Choir");
        reveal_strlit("builtin:Bell");
        reveal_strlit("builtin:Noise");
    }
    match scene {
        Scene::Pad => {
            assert("builtin:Pad"@ =~= builtin_key_name(scene));
            "builtin:Pad"
        },
        Scene::Choir => {
            assert("builtin:Choir"@ =~= builtin_key_name(scene));
            "builtin:Choir"
        },
        Scene::Bell => {
            assert("builtin:Bell"@ =~= builtin_key_name(scene));
            "builtin:Bell"
        },
        Scene::Noise => {
            assert("builtin:Noise"@ =~= builtin_key_name(scene));
            "builtin:Noise"
        },
    }
}

/// A saved built-in reference restores exactly that scene.
pub proof fn lemma_builtin_key_restores(scene: Scene)
    ensures
        restore_model(Some(builtin_key_name(scene))) == Restore::Builtin(scene),
{
    reveal_strlit("builtin:");
    reveal_strlit("live");
    reveal_strlit("Pad");
    reveal_strlit("Choir");
    reveal_strlit("Bell");
    reveal_strlit("Noise");
    let k = builtin_key_name(scene);
    assert(k.subrange(0, 8) =~= "builtin:"@);
    assert(k.subrange(8, k.len() as int) =~= scene_name(scene));
    assert(k != live_key_name()) by {
        assert(k.len() != live_key_name().len());
    }
    lemma_scene_id_round_trip(scene);
}


/// The scene ids are the scenes' capitalised names, and each id names its
/// scene: `"Pad"`, `"Choir"`, `"Bell"`, `"Noise"`.
pub proof fn lemma_scene_ids_are_names()
    ensures
        scene_name(Scene::Pad) == "Pad"@,
        scene_name(Scene::Choir) == "Choir"@,
        scene_name(Scene::Bell) == "Bell"@,
        scene_name(Scene::Noise) == "Noise"@,
        scene_named("Pad"@) == Some(Scene::Pad),
        scene_named("Choir"@) == Some(Scene::Choir),
        scene_named("Bell"@) == Some(Scene::Bell),
        scene_named("Noise"@) == Some(Scene::Noise),
{
    lemma_scene_id_round_trip(Scene::Pad);
    lemma_scene_id_round_trip(Scene::Choir);
    lemma_scene_id_round_trip(Scene::Bell);
    lemma_scene_id_round_trip(Scene::Noise);
}

/// Start-up restores exactly what was saved: nothing saved starts fresh,
/// `"live"` captures the input, `"builtin:<Name>"` plays that scene, and a
/// reference without the `builtin:` prefix is a file path.
pub proof fn lemma_restore_saved_references(p: Seq<char>)
    ensures
        restore_model(None) == Restore::Fresh,
        restore_model(Some("live"@)) == Restore::Live,
        restore_model(Some("builtin:Pad"@)) == Restore::Builtin(Scene::Pad),
        restore_model(Some("builtin:Choir"@)) == Restore::Builtin(Scene::Choir),
        restore_model(Some("builtin:Bell"@)) == Restore::Builtin(Scene::Bell),
        restore_model(Some("builtin:Noise"@)) == Restore::Builtin(Scene::Noise),
        p != "live"@ && !(8 <= p.len() && p.subrange(0, 8) == "builtin:"@) ==> restore_model(Some(p))
            == Restore::File,
        8 <= p.len() && p.subrange(0, 8) == "builtin:"@ ==> restore_model(Some(p)) is Builtin,
{
    reveal_strlit("builtin:");
    reveal_strlit("Pad");
    reveal_strlit("Choir");
    reveal_strlit("Bell");
    reveal_strlit("Noise");
    reveal_strlit("builtin:Pad");
    reveal_strlit("builtin:Choir");
    reveal_strlit("builtin:Bell");
    reveal_strlit("builtin:Noise");
    reveal_strlit("live");
    assert("builtin:Pad"@ =~= builtin_key_name(Scene::Pad));
    assert("builtin:Choir"@ =~= builtin_key_name(Scene::Choir));
    assert("builtin:Bell"@ =~= builtin_key_name(Scene::Bell));
    assert("builtin:Noise"@ =~= builtin_key_name(Scene::Noise));
    lemma_builtin_key_restores(Scene::Pad);
    lemma_builtin_key_restores(Scene::Choir);
    lemma_builtin_key_restores(Scene::Bell);
    lemma_builtin_key_restores(Scene::Noise);
    assert("live"@.len() == 4);
    assert("builtin:"@.len() == 8);
}

} // verus!
