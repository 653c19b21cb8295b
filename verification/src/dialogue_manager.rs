use vstd::prelude::*;

use crate::component_map::ComponentMap;

verus! {

/// A text that a character says.
#[derive(Clone)]
pub struct Dialogue {
    pub text: String,
}

/// All dialogues of the game, by name.
pub struct DialogueManager {
    dialogues: ComponentMap<Dialogue>,
}

/// The name of the dialogue that opens the game.
pub open spec fn intro_id() -> Seq<char> {
    "dennis_intro"@
}

/// The text of the dialogue that opens the game.
pub open spec fn intro_text() -> Seq<char> {
    "Welcome to the exciting world of Kloenk!"@
}

impl View for DialogueManager {
    type V = Map<Seq<char>, Seq<char>>;

    /// Each dialogue name with its text.
    closed spec fn view(&self) -> Map<Seq<char>, Seq<char>> {
        self.dialogues@.map_values(|d: Dialogue| d.text@)
    }
}

impl DialogueManager {
    pub closed spec fn wf(&self) -> bool {
        self.dialogues.wf()
    }

    /// The dialogues of the game: the introduction only.
    pub fn new() -> (manager: DialogueManager)
        ensures
            manager.wf(),
            manager@ == Map::<Seq<char>, Seq<char>>::empty().insert(intro_id(), intro_text()),
    {
        Self { dialogues: Self::load_dialogues() }
    }

    /// The dialogues of the game by name: the introduction only.
    pub fn load_dialogues() -> (dialogues: ComponentMap<Dialogue>)
        ensures
            dialogues.wf(),
            dialogues@.dom().finite(),
            dialogues@.dom().len() == 1,
            dialogues@.map_values(|d: Dialogue| d.text@) == Map::<Seq<char>, Seq<char>>::empty().insert(
                intro_id(),
                intro_text(),
            ),
    {
        let mut dialogues: ComponentMap<Dialogue> = ComponentMap::new();
        let id = String::from_str("dennis_intro");
        let text = String::from_str("Welcome to the exciting world of Kloenk!");
        dialogues.insert(id, Dialogue { text });
        assert(dialogues@.dom() =~= Set::<Seq<char>>::empty().insert(intro_id()));
        assert(dialogues@.map_values(|d: Dialogue| d.text@) =~= Map::<Seq<char>, Seq<char>>::empty().insert(
            intro_id(),
            intro_text(),
        ));
        dialogues
    }

    /// The dialogue named `id`, if there is one.
    pub fn get_dialogue(&self, id: &str) -> (dialogue: Option<&Dialogue>)
        requires
            self.wf(),
        ensures
            match dialogue {
                Some(d) => self@.dom().contains(id@) && d.text@ == self@[id@],
                None => !self@.dom().contains(id@),
            },
    {
        let key = String::from_str(id);
        self.dialogues.get(&key)
    }
}

} // verus!
