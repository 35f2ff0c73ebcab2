//! The notification that a webhook posts when a server is joined.

use crate::biome::{color, colors, word, words};
use crate::json::{
    array, elements_of, entries_of, entry, json_in, json_of, lemma_member_of_object,
    lemma_object_of_three, lemma_object_of_two, lemma_plain_array, lemma_plain_object, members_of,
    object, object_of, string, unsigned, write_value, written, Json,
};
use crate::link::{law_page_address_is_that_of_the_code, web_address, write_web_address};
use crate::settings::{text_or_empty, value_or_empty, Settings};
use vstd::prelude::*;

verus! {

/// A notification to post.
#[derive(Debug)]
pub struct Notification {
    /// The address to post to.
    pub url: String,
    /// What to post, in JSON.
    pub body: String,
}

/// The payload of a notification.
pub open spec fn notification_payload(
    user_id: Seq<char>,
    time: Seq<char>,
    choice_id: int,
    code: Seq<char>,
    share: bool,
) -> Json {
    object_of(
        seq![
            ("content"@, Json::Text("<@"@ + user_id + ">"@)),
            (
                "embeds"@,
                Json::Array(
                    seq![
                        object_of(
                            seq![
                                (
                                    "title"@,
                                    Json::Text("["@ + time + "] "@ + words()[choice_id] + " Link Sniped!"@),
                                ),
                                ("color"@, Json::Unsigned(colors()[choice_id] as u64)),
                                (
                                    "fields"@,
                                    Json::Array(
                                        seq![
                                            object_of(
                                                seq![
                                                    ("name"@, Json::Text(words()[choice_id] + " Link:"@)),
                                                    ("value"@, Json::Text(web_address(code, share))),
                                                ],
                                            ),
                                        ],
                                    ),
                                ),
                                ("footer"@, object_of(seq![("text"@, Json::Text("weii joins"@))])),
                            ],
                        ),
                    ],
                ),
            ),
        ],
    )
}

/// Writes the payload of a notification.
fn write_payload(user_id: &str, time: &str, choice_id: usize, code: &str, share: bool) -> (res: String)
    requires
        choice_id < 6,
    ensures
        res@ == written(notification_payload(user_id@, time@, choice_id as int, code@, share)),
        json_in(res@) == Some(notification_payload(user_id@, time@, choice_id as int, code@, share)),
{
    let name = word(choice_id).to_owned().concat(" Link:");
    let members = vec![
        entry("name", string(name.as_str())),
        entry("value", string(write_web_address(code, share).as_str())),
    ];
    assert(entries_of(members@) =~= seq![
        ("name"@, Json::Text(words()[choice_id as int] + " Link:"@)),
        ("value"@, Json::Text(web_address(code@, share))),
    ]);
    proof {
        reveal_strlit("name");
        reveal_strlit("value");
        assert("name"@.len() == 4 && "value"@.len() == 5);
        lemma_plain_object(entries_of(members@), 95);
    }
    let field = object(members);
    let ghost field_json = json_of(field);
    let values = vec![field];
    assert(elements_of(values@) =~= seq![field_json]);
    proof {
        lemma_plain_array(elements_of(values@), 96);
    }
    let fields = array(values);
    let ghost fields_json = json_of(fields);

    let members = vec![entry("text", string("weii joins"))];
    assert(entries_of(members@) =~= seq![("text"@, Json::Text("weii joins"@))]);
    proof {
        lemma_plain_object(entries_of(members@), 96);
    }
    let footer = object(members);
    let ghost footer_json = json_of(footer);

    let title = "[".to_owned().concat(time).concat("] ").concat(word(choice_id)).concat(" Link Sniped!");
    let members = vec![
        entry("title", string(title.as_str())),
        entry("color", unsigned(color(choice_id) as u64)),
        entry("fields", fields),
        entry("footer", footer),
    ];
    assert(entries_of(members@) =~= seq![
        ("title"@, Json::Text("["@ + time@ + "] "@ + words()[choice_id as int] + " Link Sniped!"@)),
        ("color"@, Json::Unsigned(colors()[choice_id as int] as u64)),
        ("fields"@, fields_json),
        ("footer"@, footer_json),
    ]);
    proof {
        reveal_strlit("title");
        reveal_strlit("color");
        reveal_strlit("fields");
        reveal_strlit("footer");
        assert("title"@.len() == 5 && "color"@.len() == 5 && "fields"@.len() == 6 && "footer"@.len() == 6);
        assert("title"@[0] != "color"@[0] && "fields"@[1] != "footer"@[1]);
        lemma_plain_object(entries_of(members@), 97);
    }
    let embed = object(members);
    let ghost embed_json = json_of(embed);
    let values = vec![embed];
    assert(elements_of(values@) =~= seq![embed_json]);
    proof {
        lemma_plain_array(elements_of(values@), 98);
    }
    let embeds = array(values);
    let ghost embeds_json = json_of(embeds);

    let content = "<@".to_owned().concat(user_id).concat(">");
    let members = vec![entry("content", string(content.as_str())), entry("embeds", embeds)];
    assert(entries_of(members@) =~= seq![
        ("content"@, Json::Text("<@"@ + user_id@ + ">"@)),
        ("embeds"@, embeds_json),
    ]);
    proof {
        reveal_strlit("content");
        reveal_strlit("embeds");
        assert("content"@.len() == 7 && "embeds"@.len() == 6);
        lemma_plain_object(entries_of(members@), 99);
    }
    write_value(&object(members))
}

/// The notification that a server of a biome is joined at a time; none where no webhook is set.
pub fn send_webhook_notification(
    settings: &Settings,
    choice_id: usize,
    server_code: &str,
    share_link_found: bool,
    time: &str,
) -> (res: Option<Notification>)
    requires
        choice_id < 6 || text_or_empty(settings.webhook_link).len() == 0,
    ensures
        res is None <==> text_or_empty(settings.webhook_link).len() == 0,
        res matches Some(notification) ==> {
            let payload = notification_payload(
                text_or_empty(settings.discord_user_id),
                time@,
                choice_id as int,
                server_code@,
                share_link_found,
            );
            &&& notification.url@ == text_or_empty(settings.webhook_link)
            &&& notification.body@ == written(payload)
            &&& json_in(notification.body@) == Some(payload)
        },
{
    let url = value_or_empty(&settings.webhook_link);
    if url.as_str().is_empty() {
        return None;
    }
    let user_id = value_or_empty(&settings.discord_user_id);
    let body = write_payload(user_id.as_str(), time, choice_id, server_code, share_link_found);
    Some(Notification { url, body })
}

/// Whether the status of a webhook's answer says that the notification was not taken.
pub fn is_refusal(status: u16) -> (res: bool)
    ensures
        res == (status >= 400),
{
    status >= 400
}

/// The one address that a notification gives.
pub open spec fn address_in(payload: Json) -> Option<Seq<char>> {
    match payload.member("embeds"@) {
        Json::Array(embeds) if embeds.len() == 1 => match embeds[0].member("fields"@) {
            Json::Array(fields) if fields.len() == 1 => fields[0].member("value"@).text(),
            _ => None,
        },
        _ => None,
    }
}

/// The address that a notification gives is that of the page of the server.
pub proof fn law_notification_gives_the_address(
    user_id: Seq<char>,
    time: Seq<char>,
    choice_id: int,
    code: Seq<char>,
    share: bool,
)
    ensures
        address_in(notification_payload(user_id, time, choice_id, code, share)) == Some(web_address(code, share)),
{
    reveal_strlit("content");
    reveal_strlit("embeds");
    reveal_strlit("title");
    reveal_strlit("color");
    reveal_strlit("fields");
    reveal_strlit("footer");
    reveal_strlit("name");
    reveal_strlit("value");
    let field = seq![
        ("name"@, Json::Text(words()[choice_id] + " Link:"@)),
        ("value"@, Json::Text(web_address(code, share))),
    ];
    let fields = Json::Array(seq![object_of(field)]);
    let embed = seq![
        ("title"@, Json::Text("["@ + time + "] "@ + words()[choice_id] + " Link Sniped!"@)),
        ("color"@, Json::Unsigned(colors()[choice_id] as u64)),
        ("fields"@, fields),
        ("footer"@, object_of(seq![("text"@, Json::Text("weii joins"@))])),
    ];
    let embeds = Json::Array(seq![object_of(embed)]);
    let members = seq![("content"@, Json::Text("<@"@ + user_id + ">"@)), ("embeds"@, embeds)];
    assert("fields"@[1] != "footer"@[1]);
    lemma_member_of_object(field, 1);
    lemma_member_of_object(embed, 2);
    lemma_member_of_object(members, 1);
}

/// What a notification says, and nothing else: it calls the user, names the biome and the time in its
/// title, and gives the page of the server.
pub proof fn law_notification_says_no_more(
    user_id: Seq<char>,
    time: Seq<char>,
    choice_id: int,
    code: Seq<char>,
    share: bool,
)
    requires
        0 <= choice_id < 6,
    ensures
        notification_payload(user_id, time, choice_id, code, share) == Json::Object(
            map![
                "content"@ => Json::Text("<@"@ + user_id + ">"@),
                "embeds"@ => Json::Array(
                    seq![
                        Json::Object(
                            map![
                                "title"@ => Json::Text(
                                    "["@ + time + "] "@ + words()[choice_id] + " Link Sniped!"@,
                                ),
                                "color"@ => Json::Unsigned(colors()[choice_id] as u64),
                                "fields"@ => Json::Array(
                                    seq![
                                        Json::Object(
                                            map![
                                                "name"@ => Json::Text(words()[choice_id] + " Link:"@),
                                                "value"@ => Json::Text(
                                                    if share {
                                                        "https://www.roblox.com/share?code="@ + code
                                                            + "&type=Server"@
                                                    } else {
                                                        "https://www.roblox.com/games/15532962292/Sols-RNG?privateServerLinkCode="@
                                                            + code
                                                    },
                                                ),
                                            ],
                                        ),
                                    ],
                                ),
                                "footer"@ => Json::Object(map!["text"@ => Json::Text("weii joins"@)]),
                            ],
                        ),
                    ],
                ),
            ],
        ),
{
    law_page_address_is_that_of_the_code(code);
    let field = seq![
        ("name"@, Json::Text(words()[choice_id] + " Link:"@)),
        ("value"@, Json::Text(web_address(code, share))),
    ];
    lemma_object_of_two(field);
    let footer = seq![("text"@, Json::Text("weii joins"@))];
    assert(object_of(footer) == Json::Object(map!["text"@ => Json::Text("weii joins"@)])) by {
        reveal_with_fuel(members_of, 2);
        assert(footer.drop_last() =~= seq![]);
    }
    let embed = seq![
        ("title"@, Json::Text("["@ + time + "] "@ + words()[choice_id] + " Link Sniped!"@)),
        ("color"@, Json::Unsigned(colors()[choice_id] as u64)),
        ("fields"@, Json::Array(seq![object_of(field)])),
        ("footer"@, object_of(footer)),
    ];
    lemma_object_of_three(embed.drop_last());
    assert(embed.drop_last()[0] == embed[0] && embed.drop_last()[1] == embed[1] && embed.drop_last()[2]
        == embed[2]);
    let members = seq![
        ("content"@, Json::Text("<@"@ + user_id + ">"@)),
        ("embeds"@, Json::Array(seq![object_of(embed)])),
    ];
    lemma_object_of_two(members);
}

} // verus!
