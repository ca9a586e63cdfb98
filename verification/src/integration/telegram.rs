//! The Telegram notifier.

use vstd::prelude::*;
use vstd::string::StringExecFns;
use crate::database::ReceiveMsg;
use crate::html::{escape_html, escape_seq};
use crate::integration::{Integration, Notification};

verus! {

/// Notifies a Telegram chat of accepted messages through the bot API.
pub struct Telegram {
    token: String,
    chat_id: String,
}

impl Telegram {
    /// The bot token the notifier was configured with.
    pub closed spec fn token_spec(&self) -> Seq<char> {
        self.token@
    }

    /// The chat the notifier posts to.
    pub closed spec fn chat_id_spec(&self) -> Seq<char> {
        self.chat_id@
    }

    /// A notifier for one bot and one chat.
    pub fn new(token: String, chat_id: String) -> (r: Self)
        ensures
            r.token_spec() == token@,
            r.chat_id_spec() == chat_id@,
    {
        Telegram { token, chat_id }
    }
}

impl Integration for Telegram {
    /// The notification: the author in bold, a colon, then the content on the
    /// next line, author and content both escaped for Telegram's HTML parse
    /// mode; addressed to the configured chat through the bot API.
    fn integrate(&self, msg: &ReceiveMsg) -> (n: Notification)
        ensures
            n.text@ == "<b>"@ + escape_seq(msg.author@) + "</b>:\n"@ + escape_seq(msg.content@),
            n.url@ == "https://api.telegram.org/bot"@ + self.token_spec() + "/sendMessage"@,
            n.chat_id@ == self.chat_id_spec(),
    {
        let author = escape_html(msg.author.as_str());
        let content = escape_html(msg.content.as_str());
        let mut text = String::from_str("<b>");
        text.append(author.as_str());
        text.append("</b>:\n");
        text.append(content.as_str());
        let mut url = String::from_str("https://api.telegram.org/bot");
        url.append(self.token.as_str());
        url.append("/sendMessage");
        Notification { url, chat_id: self.chat_id.clone(), text }
    }
}

} // verus!
