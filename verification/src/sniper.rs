//! The sniper: which messages it acts on, how, and the course of its session with the gateway.

use crate::biome::{channel, channels, is_about, should_process_message};
use crate::link::{
    code_in, desktop_arguments, emulator_line, extract_server_code, join_ldplayer, join_windows,
};
use crate::settings::{contents_of, is_on, switched_on, text_of, Settings};
use crate::text::{number_in, parse_number};
use vstd::prelude::*;

verus! {

/// A sniper.
pub struct Sniper {
    pub settings: Settings,
    /// The choices that are switched on.
    pub activated_index: Vec<usize>,
}

/// How to start the game on a server.
#[derive(Debug, PartialEq, Eq)]
pub enum Launch {
    /// Write this line to the shell of each emulator.
    Emulator(String),
    /// Run `cmd` with these arguments.
    Desktop(Vec<String>),
}

/// The choices below `end` that are switched on, in order.
pub open spec fn choices_on(toggles: Seq<Option<String>>, end: int) -> Seq<usize>
    decreases end,
{
    if end <= 0 {
        seq![]
    } else if is_on(toggles[end - 1]) {
        choices_on(toggles, end - 1).push((end - 1) as usize)
    } else {
        choices_on(toggles, end - 1)
    }
}

/// The choices below `end` that are active and announced in a channel, in order.
pub open spec fn choices_for(active: Seq<usize>, channel_id: u64, end: int) -> Seq<usize>
    decreases end,
{
    if end <= 0 {
        seq![]
    } else if active.contains((end - 1) as usize) && channels()[end - 1] == channel_id {
        choices_for(active, channel_id, end - 1).push((end - 1) as usize)
    } else {
        choices_for(active, channel_id, end - 1)
    }
}

/// Whether each choice in a list comes before those that follow it, and none comes twice.
pub open spec fn in_order(choices: Seq<usize>) -> bool {
    forall|i: int, j: int| 0 <= i < j < choices.len() ==> choices[i] < choices[j]
}

/// The number of a channel; zero where the text gives none.
pub open spec fn channel_number(channel_id: Option<Seq<char>>) -> u64 {
    match channel_id {
        Some(text) => match number_in(text) {
            Some(number) => number,
            None => 0,
        },
        None => 0,
    }
}

/// The number of a channel; zero where the text gives none.
pub(crate) fn read_channel_number(channel_id: &Option<String>) -> (res: u64)
    ensures
        res == channel_number(text_of(*channel_id)),
{
    match channel_id {
        Some(text) => match parse_number(text.as_str()) {
            Some(number) => number,
            None => 0,
        },
        None => 0,
    }
}

/// Whether a list holds a choice.
fn holds_choice(list: &Vec<usize>, choice_id: usize) -> (res: bool)
    ensures
        res == list@.contains(choice_id),
{
    for i in 0..list.len()
        invariant
            forall|j: int| 0 <= j < i ==> list@[j] != choice_id,
    {
        if list[i] == choice_id {
            return true;
        }
    }
    false
}

impl Sniper {
    /// A sniper with the settings that the text of the configuration file gives, or with none
    /// where there is no such text. No choice is active yet.
    pub fn new(config: Option<&str>) -> (res: Self)
        ensures
            res.settings.are_those_of(
                contents_of(
                    match config {
                        Some(text) => Some(text@),
                        None => None,
                    },
                ),
            ),
            res.activated_index@ == Seq::<usize>::empty(),
    {
        Self::with_settings(Settings::read(config))
    }

    /// A sniper with these settings. No choice is active yet.
    pub fn with_settings(settings: Settings) -> (res: Self)
        ensures
            res.settings == settings,
            res.activated_index@ == Seq::<usize>::empty(),
    {
        Sniper { settings, activated_index: Vec::new() }
    }

    /// Makes the choices active that the settings switch on. Where there are none, tells so and
    /// changes nothing.
    pub fn activate(&mut self) -> (res: bool)
        ensures
            final(self).settings == old(self).settings,
            res == (choices_on(old(self).settings.toggles@, 6).len() > 0),
            res ==> final(self).activated_index@ == choices_on(old(self).settings.toggles@, 6),
            !res ==> final(self).activated_index == old(self).activated_index,
    {
        let mut active: Vec<usize> = Vec::new();
        for i in 0..6usize
            invariant
                active@ == choices_on(self.settings.toggles@, i as int),
        {
            if switched_on(&self.settings.toggles[i]) {
                active.push(i);
            }
        }
        if active.len() == 0 {
            return false;
        }
        self.activated_index = active;
        true
    }

    /// Whether the game runs on emulators.
    pub fn uses_ldplayer(&self) -> (res: bool)
        ensures
            res == is_on(self.settings.use_ldplayer),
    {
        switched_on(&self.settings.use_ldplayer)
    }

    /// Takes the server code out of a message that is about a biome and sets the flag to whether
    /// it is that of a share link. Where the message is not about the biome, or holds no link, the
    /// flag stays as it is.
    pub fn process_message(
        &self,
        content: &str,
        choice_id: usize,
        share_link_found: &mut bool,
    ) -> (res: Option<String>)
        requires
            choice_id < 6,
        ensures
            match code_in(content@) {
                Some((code, share)) if is_about(content@, choice_id as int) => {
                    &&& res is Some
                    &&& res->0@ == code
                    &&& *final(share_link_found) == share
                },
                _ => res is None && *final(share_link_found) == *old(share_link_found),
            },
    {
        if !should_process_message(content, choice_id) {
            return None;
        }
        extract_server_code(content, share_link_found)
    }

    /// How to start the game on a server.
    pub fn handle_server_join(&self, server_code: &str, share_link_found: bool) -> (res: Launch)
        ensures
            match res {
                Launch::Emulator(line) => {
                    &&& is_on(self.settings.use_ldplayer)
                    &&& line@ == emulator_line(server_code@, share_link_found)
                },
                Launch::Desktop(arguments) => {
                    &&& !is_on(self.settings.use_ldplayer)
                    &&& arguments@.map_values(|argument: String| argument@) == desktop_arguments(
                        server_code@,
                        share_link_found,
                    )
                },
            },
    {
        if self.uses_ldplayer() {
            Launch::Emulator(join_ldplayer(server_code, share_link_found))
        } else {
            Launch::Desktop(join_windows(server_code, share_link_found))
        }
    }

    /// The active choices that are announced in a channel.
    pub fn route(&self, channel_id: u64) -> (res: Vec<usize>)
        ensures
            res@ == choices_for(self.activated_index@, channel_id, 6),
    {
        let mut choices: Vec<usize> = Vec::new();
        for i in 0..6usize
            invariant
                choices@ == choices_for(self.activated_index@, channel_id, i as int),
        {
            if holds_choice(&self.activated_index, i) && channel(i) == channel_id {
                choices.push(i);
            }
        }
        choices
    }
}

proof fn lemma_choices_on(toggles: Seq<Option<String>>, end: int)
    requires
        0 <= end <= 6,
    ensures
        in_order(choices_on(toggles, end)),
        forall|choice_id: usize|
            #[trigger] choices_on(toggles, end).contains(choice_id) <==> choice_id < end && is_on(
                toggles[choice_id as int],
            ),
    decreases end,
{
    if end > 0 {
        lemma_choices_on(toggles, end - 1);
        let before = choices_on(toggles, end - 1);
        let after = choices_on(toggles, end);
        assert forall|i: int| 0 <= i < before.len() implies before[i] < end - 1 by {
            assert(before.contains(before[i]));
        }
        assert forall|choice_id: usize|
            #[trigger] after.contains(choice_id) <==> choice_id < end && is_on(toggles[choice_id as int]) by {
            if is_on(toggles[end - 1]) {
                assert(after[before.len() as int] == (end - 1) as usize);
                if before.contains(choice_id) {
                    let i = choose|i: int| 0 <= i < before.len() && before[i] == choice_id;
                    assert(after[i] == choice_id);
                }
                if after.contains(choice_id) && choice_id != end - 1 {
                    let i = choose|i: int| 0 <= i < after.len() && after[i] == choice_id;
                    assert(before[i] == choice_id);
                }
            }
        }
    }
}

/// The choices that become active are those that are switched on, each once and in order.
pub proof fn law_active_choices_are_those_on(toggles: Seq<Option<String>>)
    ensures
        in_order(choices_on(toggles, 6)),
        forall|choice_id: usize|
            #[trigger] choices_on(toggles, 6).contains(choice_id) <==> choice_id < 6 && is_on(toggles[choice_id as int]),
{
    lemma_choices_on(toggles, 6);
}

proof fn lemma_choices_for(active: Seq<usize>, channel_id: u64, end: int)
    requires
        0 <= end <= 6,
    ensures
        in_order(choices_for(active, channel_id, end)),
        forall|choice_id: usize|
            #[trigger] choices_for(active, channel_id, end).contains(choice_id) <==> choice_id < end && active.contains(
                choice_id,
            ) && channels()[choice_id as int] == channel_id,
    decreases end,
{
    if end > 0 {
        lemma_choices_for(active, channel_id, end - 1);
        let before = choices_for(active, channel_id, end - 1);
        let after = choices_for(active, channel_id, end);
        assert forall|i: int| 0 <= i < before.len() implies before[i] < end - 1 by {
            assert(before.contains(before[i]));
        }
        assert forall|choice_id: usize|
            #[trigger] after.contains(choice_id) <==> choice_id < end && active.contains(choice_id)
                && channels()[choice_id as int] == channel_id by {
            if active.contains((end - 1) as usize) && channels()[end - 1] == channel_id {
                assert(after[before.len() as int] == (end - 1) as usize);
                if before.contains(choice_id) {
                    let i = choose|i: int| 0 <= i < before.len() && before[i] == choice_id;
                    assert(after[i] == choice_id);
                }
                if after.contains(choice_id) && choice_id != end - 1 {
                    let i = choose|i: int| 0 <= i < after.len() && after[i] == choice_id;
                    assert(before[i] == choice_id);
                }
            }
        }
    }
}

/// A message is processed for the active choices that are announced in its channel, for each once
/// and in order, and for no others.
pub proof fn law_message_goes_to_its_channel(active: Seq<usize>, channel_id: u64)
    ensures
        in_order(choices_for(active, channel_id, 6)),
        forall|choice_id: usize|
            #[trigger] choices_for(active, channel_id, 6).contains(choice_id) <==> choice_id < 6 && active.contains(choice_id)
                && channels()[choice_id as int] == channel_id,
{
    lemma_choices_for(active, channel_id, 6);
}

/// A message whose channel has no number is processed for no choice.
pub proof fn law_no_channel_no_choice(active: Seq<usize>, channel_id: Option<Seq<char>>)
    requires
        channel_id matches Some(text) ==> number_in(text) is None,
    ensures
        choices_for(active, channel_number(channel_id), 6).len() == 0,
{
    lemma_choices_for(active, 0, 6);
    let choices = choices_for(active, 0, 6);
    if choices.len() > 0 {
        assert(choices.contains(choices[0]));
    }
}

/// Without a configuration no choice is switched on.
pub proof fn law_nothing_is_on_without_a_configuration(settings: Settings)
    requires
        settings.are_those_of(contents_of(None)),
    ensures
        choices_on(settings.toggles@, 6).len() == 0,
        !is_on(settings.use_ldplayer),
{
    lemma_choices_on(settings.toggles@, 6);
    let choices = choices_on(settings.toggles@, 6);
    if choices.len() > 0 {
        assert(choices.contains(choices[0]));
        assert(text_of(settings.toggles@[choices[0] as int]) is None);
    }
}

/// The choices that become active, and those that a message is processed for, come in the order of
/// their ranks, and none comes twice.
pub proof fn law_choices_come_in_order(toggles: Seq<Option<String>>, active: Seq<usize>, channel_id: u64, i: int, j: int)
    requires
        i < j,
    ensures
        0 <= i && j < choices_on(toggles, 6).len() ==> choices_on(toggles, 6)[i] < choices_on(toggles, 6)[j],
        0 <= i && j < choices_for(active, channel_id, 6).len() ==> choices_for(active, channel_id, 6)[i]
            < choices_for(active, channel_id, 6)[j],
{
    lemma_choices_on(toggles, 6);
    lemma_choices_for(active, channel_id, 6);
}

/// The number of a channel is the number that its text writes; where it writes none, or there is no
/// text, it is zero.
pub proof fn law_channel_number_is_that_of_the_text(text: Seq<char>)
    ensures
        number_in(text) matches Some(number) ==> channel_number(Some(text)) == number,
        number_in(text) is None ==> channel_number(Some(text)) == 0,
        channel_number(None) == 0,
{
}

} // verus!
