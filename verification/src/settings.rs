//! The app's settings, their defaults, and the normalisation applied whenever
//! they are loaded, changed or saved.
use vstd::prelude::*;

use crate::labels::{
    keys_unique, label_for, lemma_lookup_at, lemma_normal_labels_fixed, normal_labels, normalized_labels, pairs_view,
};
use crate::text::{
    chars_of, lowercase_chars, same_chars, string_of, trim_chars, trim_end_spec, trim_start_spec, trimmed,
};
use crate::unicode::{ascii_lowercase, is_ascii_text, is_white_space, lowercase};

verus! {

/// The global shortcut that shows and hides the dashboard by default.
pub const DEFAULT_HOTKEY: &'static str = "control+shift+Space";

/// The default strength of the glass blur, in percent.
pub const DEFAULT_BLUR_PERCENT: u8 = 100;

/// The strongest glass blur, in percent.
pub const MAX_BLUR_PERCENT: u8 = 100;

/// The default visual material.
pub const DEFAULT_MATERIAL: &'static str = "mica";

/// The user's settings.
pub struct AppSettings {
    pub hotkey: String,
    pub blur_percent: u8,
    pub material: String,
    pub exe_labels: Vec<(String, String)>,
}

/// The exe labels a new settings file starts with.
pub open spec fn default_exe_label_pairs() -> Seq<(Seq<char>, Seq<char>)> {
    seq![
        ("javaw.exe"@, "Minecraft"@),
        ("pythonw.exe"@, "Python App"@),
        ("python.exe"@, "Python"@),
        ("cmd.exe"@, "Command Prompt"@),
        ("explorer.exe"@, "File Explorer"@),
        ("whatsapp.exe"@, "WhatsApp"@),
        ("whatsapp.root.exe"@, "WhatsApp"@),
    ]
}

/// The material a stored value selects: `mica` or `liquid`, compared after
/// trimming and lowercasing; anything else selects the default, `mica`.
pub open spec fn material_choice(material: Seq<char>) -> Seq<char> {
    let key = lowercase(trimmed(material));
    if key == "liquid"@ {
        "liquid"@
    } else {
        "mica"@
    }
}

/// The hotkey a stored value selects: the trimmed value, or the default when blank.
pub open spec fn hotkey_choice(hotkey: Seq<char>) -> Seq<char> {
    if trimmed(hotkey).len() == 0 {
        "control+shift+Space"@
    } else {
        trimmed(hotkey)
    }
}

/// Whether `n` is `s` normalised: the hotkey and material chosen as above,
/// the blur capped at `MAX_BLUR_PERCENT`, and the labels kept.
pub open spec fn is_normalized_from(n: AppSettings, s: AppSettings) -> bool {
    &&& n.hotkey@ == hotkey_choice(s.hotkey@)
    &&& n.blur_percent == if s.blur_percent > MAX_BLUR_PERCENT {
        MAX_BLUR_PERCENT
    } else {
        s.blur_percent
    }
    &&& n.material@ == material_choice(s.material@)
    &&& pairs_view(n.exe_labels@) == pairs_view(s.exe_labels@)
}

proof fn lemma_untrimmable(s: Seq<char>)
    requires
        s.len() > 0,
        !is_white_space(s[0]),
        !is_white_space(s.last()),
    ensures
        trimmed(s) == s,
{
    assert(trim_start_spec(s) == s);
    assert(trim_end_spec(s) == s);
}

proof fn lemma_plain_key(k: Seq<char>)
    requires
        k.len() > 0,
        forall|i: int| 0 <= i < k.len() ==> ('a' <= #[trigger] k[i] && k[i] <= 'z') || k[i] == '.',
    ensures
        lowercase(trimmed(k)) == k,
{
    lemma_untrimmable(k);
    assert(is_ascii_text(k));
    assert(ascii_lowercase(k) =~= k);
}

/// The default labels: every listed exe is listed once, under its own
/// trimmed lowercase name, with a trimmed, non-blank name; each names its own
/// app (only the two WhatsApp builds share a name); and looked up the way the
/// resolver looks labels up, each exe gets its listed name: `explorer.exe`
/// is File Explorer, `cmd.exe` Command Prompt, `javaw.exe` Minecraft,
/// `pythonw.exe` Python App, `python.exe` Python, and both `whatsapp.exe`
/// and `whatsapp.root.exe` WhatsApp.
pub proof fn lemma_default_labels()
    ensures
        normal_labels(default_exe_label_pairs()),
        forall|i: int, j: int|
            0 <= i < j < default_exe_label_pairs().len() && (#[trigger] default_exe_label_pairs()[i]).1
                == (#[trigger] default_exe_label_pairs()[j]).1 ==> default_exe_label_pairs()[i].1 == "WhatsApp"@,
        forall|i: int|
            0 <= i < default_exe_label_pairs().len() ==> label_for(
                normalized_labels(default_exe_label_pairs()),
                (#[trigger] default_exe_label_pairs()[i]).0,
            ) == Some(default_exe_label_pairs()[i].1),
        label_for(normalized_labels(default_exe_label_pairs()), "explorer.exe"@) == Some("File Explorer"@),
        label_for(normalized_labels(default_exe_label_pairs()), "cmd.exe"@) == Some("Command Prompt"@),
        label_for(normalized_labels(default_exe_label_pairs()), "javaw.exe"@) == Some("Minecraft"@),
        label_for(normalized_labels(default_exe_label_pairs()), "pythonw.exe"@) == Some("Python App"@),
        label_for(normalized_labels(default_exe_label_pairs()), "python.exe"@) == Some("Python"@),
        label_for(normalized_labels(default_exe_label_pairs()), "whatsapp.exe"@) == Some("WhatsApp"@),
        label_for(normalized_labels(default_exe_label_pairs()), "whatsapp.root.exe"@) == Some("WhatsApp"@),
{
    reveal_strlit("javaw.exe");
    reveal_strlit("pythonw.exe");
    reveal_strlit("python.exe");
    reveal_strlit("cmd.exe");
    reveal_strlit("explorer.exe");
    reveal_strlit("whatsapp.exe");
    reveal_strlit("whatsapp.root.exe");
    reveal_strlit("Minecraft");
    reveal_strlit("Python App");
    reveal_strlit("Python");
    reveal_strlit("Command Prompt");
    reveal_strlit("File Explorer");
    reveal_strlit("WhatsApp");
    let d = default_exe_label_pairs();
    assert(d.len() == 7);
    assert forall|i: int| 0 <= i < d.len() implies {
        &&& lowercase(trimmed((#[trigger] d[i]).0)) == d[i].0
        &&& d[i].0.len() > 0
        &&& trimmed(d[i].1) == d[i].1
        &&& d[i].1.len() > 0
    } by {
        lemma_plain_key(d[i].0);
        lemma_untrimmable(d[i].1);
    }
    assert(d[4].0[0] != d[5].0[0]);
    assert(keys_unique(d));
    lemma_normal_labels_fixed(d);
    assert forall|i: int| 0 <= i < d.len() implies label_for(normalized_labels(d), (#[trigger] d[i]).0) == Some(
        d[i].1,
    ) by {
        lemma_plain_key(d[i].0);
        lemma_lookup_at(d, i);
    }
    assert(label_for(normalized_labels(d), d[4].0) == Some(d[4].1));
    assert(label_for(normalized_labels(d), d[3].0) == Some(d[3].1));
    assert(label_for(normalized_labels(d), d[0].0) == Some(d[0].1));
    assert(label_for(normalized_labels(d), d[1].0) == Some(d[1].1));
    assert(label_for(normalized_labels(d), d[2].0) == Some(d[2].1));
    assert(label_for(normalized_labels(d), d[5].0) == Some(d[5].1));
    assert(label_for(normalized_labels(d), d[6].0) == Some(d[6].1));
}

fn push_label(v: &mut Vec<(String, String)>, k: &str, l: &str)
    ensures
        pairs_view(final(v)@) == pairs_view(old(v)@).push((k@, l@)),
{
    let ghost before = v@;
    v.push((String::from_str(k), String::from_str(l)));
    assert(pairs_view(v@) =~= pairs_view(before).push((k@, l@)));
}

/// The exe labels a new settings file starts with.
pub fn default_exe_labels() -> (r: Vec<(String, String)>)
    ensures
        pairs_view(r@) == default_exe_label_pairs(),
{
    let mut v: Vec<(String, String)> = Vec::new();
    assert(pairs_view(v@) =~= Seq::<(Seq<char>, Seq<char>)>::empty());
    push_label(&mut v, "javaw.exe", "Minecraft");
    push_label(&mut v, "pythonw.exe", "Python App");
    push_label(&mut v, "python.exe", "Python");
    push_label(&mut v, "cmd.exe", "Command Prompt");
    push_label(&mut v, "explorer.exe", "File Explorer");
    push_label(&mut v, "whatsapp.exe", "WhatsApp");
    push_label(&mut v, "whatsapp.root.exe", "WhatsApp");
    assert(pairs_view(v@) =~= default_exe_label_pairs());
    v
}

impl Default for AppSettings {
    fn default() -> (r: AppSettings)
        ensures
            r.hotkey@ == "control+shift+Space"@,
            r.blur_percent == DEFAULT_BLUR_PERCENT,
            r.material@ == "mica"@,
            pairs_view(r.exe_labels@) == default_exe_label_pairs(),
    {
        AppSettings {
            hotkey: String::from_str("control+shift+Space"),
            blur_percent: DEFAULT_BLUR_PERCENT,
            material: String::from_str("mica"),
            exe_labels: default_exe_labels(),
        }
    }
}

/// The material a stored value selects: `"mica"` or `"liquid"`.
pub fn normalize_material(material: &str) -> (r: &'static str)
    ensures
        r@ == material_choice(material@),
{
    let v = chars_of(material);
    let t = trim_chars(&v);
    let key = lowercase_chars(&t);
    if same_chars(&key, &chars_of("mica")) {
        "mica"
    } else if same_chars(&key, &chars_of("liquid")) {
        "liquid"
    } else {
        "mica"
    }
}

/// The blur strength capped at `MAX_BLUR_PERCENT`.
pub fn clamp_blur_percent(blur_percent: u8) -> (r: u8)
    ensures
        r == if blur_percent > MAX_BLUR_PERCENT {
            MAX_BLUR_PERCENT
        } else {
            blur_percent
        },
{
    if blur_percent > MAX_BLUR_PERCENT {
        MAX_BLUR_PERCENT
    } else {
        blur_percent
    }
}

/// Normalises settings: the hotkey trimmed (the default when blank), the blur
/// capped, and the material reduced to a supported one.
pub fn normalize_settings(settings: AppSettings) -> (r: AppSettings)
    ensures
        is_normalized_from(r, settings),
{
    let v = chars_of(settings.hotkey.as_str());
    let t = trim_chars(&v);
    let hotkey = if t.len() == 0 {
        String::from_str("control+shift+Space")
    } else {
        string_of(&t)
    };
    let material = String::from_str(normalize_material(settings.material.as_str()));
    AppSettings {
        hotkey,
        blur_percent: clamp_blur_percent(settings.blur_percent),
        material,
        exe_labels: settings.exe_labels,
    }
}

/// Finishes loading settings read from a file: when the file had no
/// `exeLabels` key the default labels are filled in, and the result is
/// normalised. The flag returned says whether the file must be written back
/// (which it must exactly when the labels were missing).
pub fn finish_load_settings(parsed: AppSettings, exe_labels_present: bool) -> (r: (AppSettings, bool))
    ensures
        r.1 == !exe_labels_present,
        exe_labels_present ==> is_normalized_from(r.0, parsed),
        !exe_labels_present ==> r.0.hotkey@ == hotkey_choice(parsed.hotkey@) && r.0.material@
            == material_choice(parsed.material@) && r.0.blur_percent == (if parsed.blur_percent
            > MAX_BLUR_PERCENT {
            MAX_BLUR_PERCENT
        } else {
            parsed.blur_percent
        }) && pairs_view(r.0.exe_labels@) == default_exe_label_pairs(),
{
    let mut settings = parsed;
    if !exe_labels_present {
        settings.exe_labels = default_exe_labels();
    }
    (normalize_settings(settings), !exe_labels_present)
}

/// Normalising settings twice is normalising them once: the hotkey, blur,
/// material and labels stay as the first normalisation left them.
pub proof fn lemma_normalize_settings_stable(s: AppSettings, n: AppSettings, m: AppSettings)
    requires
        is_normalized_from(n, s),
        is_normalized_from(m, n),
    ensures
        m.hotkey@ == n.hotkey@,
        m.blur_percent == n.blur_percent,
        m.material@ == n.material@,
        pairs_view(m.exe_labels@) == pairs_view(n.exe_labels@),
{
    crate::text::lemma_trimmed_idempotent(s.hotkey@);
    reveal_strlit("control+shift+Space");
    let d = "control+shift+Space"@;
    assert(trimmed(d) == d) by {
        assert(!crate::unicode::is_white_space(d[0]));
        assert(!crate::unicode::is_white_space(d.last()));
        assert(crate::text::trim_start_spec(d) == d);
        assert(crate::text::trim_end_spec(d) == d);
    }
    reveal_strlit("mica");
    reveal_strlit("liquid");
    crate::text::lemma_plain_word("mica"@);
    crate::text::lemma_plain_word("liquid"@);
}

} // verus!
